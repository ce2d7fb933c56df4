//! Schema migrations: the migration values, the planning of `run`,
//! `rollback` and `status`, and the discovery of migration files.

pub mod migration;
pub mod migrator;
pub mod directory;
pub mod batch;
pub mod tracking;
