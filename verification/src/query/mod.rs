//! Query builders and the filter / ordering DSL.

pub mod filter;
pub mod table;
pub mod select;
pub mod insert;
pub mod update;
pub mod delete;
pub mod rows;
pub mod bulk;
