//! The statements over the tracking table `main._ducklake_migrations`, which
//! records each applied migration's version, description and time.

use vstd::prelude::*;

use crate::text::push_str;

verus! {

/// Creates the tracking table when it does not exist yet.
pub open spec fn create_tracking_text() -> Seq<char> {
    "CREATE TABLE IF NOT EXISTS main._ducklake_migrations (version BIGINT PRIMARY KEY, description VARCHAR NOT NULL, applied_at TIMESTAMP DEFAULT CURRENT_TIMESTAMP)"@
}

/// Records an applied migration: `$1` its version, `$2` its description.
pub open spec fn record_applied_text() -> Seq<char> {
    "INSERT INTO main._ducklake_migrations (version, description) VALUES ($1, $2)"@
}

/// Erases a rolled-back migration: `$1` its version.
pub open spec fn erase_applied_text() -> Seq<char> {
    "DELETE FROM main._ducklake_migrations WHERE version = $1"@
}

/// The applied versions, ascending.
pub open spec fn applied_versions_text() -> Seq<char> {
    "SELECT version FROM main._ducklake_migrations ORDER BY version ASC"@
}

/// Every tracking row: version, and the time it was applied as text.
pub open spec fn tracking_rows_text() -> Seq<char> {
    "SELECT version, CAST(applied_at AS VARCHAR) FROM main._ducklake_migrations"@
}

fn owned(t: &str) -> (s: String)
    ensures
        s@ == t@,
{
    let mut s = String::new();
    push_str(&mut s, t);
    s
}

/// The statement creating the tracking table if needed.
pub fn create_tracking_statement() -> (s: String)
    ensures
        s@ == create_tracking_text(),
{
    owned(
        "CREATE TABLE IF NOT EXISTS main._ducklake_migrations (version BIGINT PRIMARY KEY, description VARCHAR NOT NULL, applied_at TIMESTAMP DEFAULT CURRENT_TIMESTAMP)",
    )
}

/// The statement recording an applied migration.
pub fn record_applied_statement() -> (s: String)
    ensures
        s@ == record_applied_text(),
{
    owned("INSERT INTO main._ducklake_migrations (version, description) VALUES ($1, $2)")
}

/// The statement erasing a rolled-back migration.
pub fn erase_applied_statement() -> (s: String)
    ensures
        s@ == erase_applied_text(),
{
    owned("DELETE FROM main._ducklake_migrations WHERE version = $1")
}

/// The query listing the applied versions in ascending order.
pub fn applied_versions_query() -> (s: String)
    ensures
        s@ == applied_versions_text(),
{
    owned("SELECT version FROM main._ducklake_migrations ORDER BY version ASC")
}

/// The query listing every tracking row.
pub fn tracking_rows_query() -> (s: String)
    ensures
        s@ == tracking_rows_text(),
{
    owned("SELECT version, CAST(applied_at AS VARCHAR) FROM main._ducklake_migrations")
}

} // verus!
