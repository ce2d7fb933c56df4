//! The error type shared by every operation of the library.

use vstd::prelude::*;

verus! {

/// Every error the library reports.
///
/// The variants that come from the database engine, the connection pool and
/// the file system carry the message of the underlying error.
#[derive(Debug, Clone)]
pub enum DuckLakeError {
    /// The database engine rejected a statement or a row could not be read.
    Duckdb(String),
    /// A query that must return a row returned none.
    NotFound,
    /// A query was refused before reaching the database (a safety guardrail
    /// or an inconsistent migration set).
    Query(String),
    /// A configuration value is invalid.
    Config(String),
    /// A file could not be read.
    Io(String),
    /// The connection pool could not hand out a connection.
    Pool(String),
}

} // verus!
