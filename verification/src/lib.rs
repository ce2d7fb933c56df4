//! SQL statement construction, identifier safety, configuration checks and
//! migration planning for DuckLake / DuckDB databases.

pub mod text;
pub mod error;
pub mod ident;
pub mod sql;
pub mod query;
pub mod config;
pub mod connection;
pub mod migration;
pub mod cli;
pub mod naming;
pub mod mapping;
