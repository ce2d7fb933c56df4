//! SQL migrations and migration status records.

use vstd::prelude::*;

use crate::error::DuckLakeError;
use crate::text::{push_signed_decimal, push_str, signed_decimal};

verus! {

/// The contents of a SQL migration.
pub ghost struct MigrationParts {
    pub version: i64,
    pub description: Seq<char>,
    pub up: Seq<char>,
    pub down: Option<Seq<char>>,
}

/// A migration defined by a pair of SQL scripts; without a `down` script it
/// cannot be rolled back.
#[derive(Debug, Clone)]
pub struct SqlMigration {
    version: i64,
    description: String,
    up_sql: String,
    down_sql: Option<String>,
}

impl View for SqlMigration {
    type V = MigrationParts;

    closed spec fn view(&self) -> MigrationParts {
        MigrationParts {
            version: self.version,
            description: self.description@,
            up: self.up_sql@,
            down: match self.down_sql {
                Some(d) => Some(d@),
                None => None,
            },
        }
    }
}

/// Message of [`SqlMigration::down_sql`] for a migration without a down script.
pub open spec fn irreversible_message(version: i64, description: Seq<char>) -> Seq<char> {
    "migration v"@ + signed_decimal(version as int) + " ('"@ + description
        + "') is not reversible: no down script was provided"@
}

impl SqlMigration {
    /// A reversible migration.
    pub fn new(version: i64, description: &str, up_sql: &str, down_sql: &str) -> (m: SqlMigration)
        ensures
            m@ == (MigrationParts {
                version,
                description: description@,
                up: up_sql@,
                down: Some(down_sql@),
            }),
    {
        SqlMigration {
            version,
            description: description.to_owned(),
            up_sql: up_sql.to_owned(),
            down_sql: Some(down_sql.to_owned()),
        }
    }

    /// A migration that cannot be rolled back.
    pub fn new_irreversible(version: i64, description: &str, up_sql: &str) -> (m: SqlMigration)
        ensures
            m@ == (MigrationParts {
                version,
                description: description@,
                up: up_sql@,
                down: None,
            }),
    {
        SqlMigration {
            version,
            description: description.to_owned(),
            up_sql: up_sql.to_owned(),
            down_sql: None,
        }
    }

    /// The version number.
    pub fn version(&self) -> (v: i64)
        ensures
            v == self@.version,
    {
        self.version
    }

    /// The description.
    pub fn description(&self) -> (d: &str)
        ensures
            d@ == self@.description,
    {
        self.description.as_str()
    }

    /// The script that applies the migration.
    pub fn up_sql(&self) -> (s: &str)
        ensures
            s@ == self@.up,
    {
        self.up_sql.as_str()
    }

    /// The script that reverses the migration, or the error a rollback of an
    /// irreversible migration reports.
    pub fn down_sql(&self) -> (r: Result<&str, DuckLakeError>)
        ensures
            match self@.down {
                Some(d) => r matches Ok(s) && s@ == d,
                None => r matches Err(DuckLakeError::Query(m)) && m@ == irreversible_message(
                    self@.version,
                    self@.description,
                ),
            },
    {
        match &self.down_sql {
            Some(d) => Ok(d.as_str()),
            None => {
                let mut m = String::new();
                push_str(&mut m, "migration v");
                push_signed_decimal(&mut m, self.version);
                push_str(&mut m, " ('");
                push_str(&mut m, self.description.as_str());
                push_str(&mut m, "') is not reversible: no down script was provided");
                assert(m@ =~= irreversible_message(self@.version, self@.description));
                Err(DuckLakeError::Query(m))
            },
        }
    }
}

/// The status of one registered migration.
#[derive(Debug, Clone)]
pub struct MigrationStatus {
    /// The migration version.
    pub version: i64,
    /// The migration description.
    pub description: String,
    /// Whether the migration is recorded as applied.
    pub applied: bool,
    /// When the migration was applied, as DuckDB formats the timestamp.
    pub applied_at: Option<String>,
}

} // verus!
