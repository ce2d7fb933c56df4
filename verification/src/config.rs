//! Configuration values (normally read from `ducklake.toml`) and their
//! cross-field validation.

use vstd::prelude::*;

use crate::error::DuckLakeError;
use crate::ident::{identifier_check, validate_identifier, MAX_POOL_SIZE};
use crate::text::{decimal, push_decimal, push_str};

verus! {

/// Root configuration: the database file, the pool settings and the optional
/// DuckLake catalog attachment.
#[derive(Debug)]
pub struct DuckLakeConfig {
    /// Settings for the underlying DuckDB database file.
    pub database: DatabaseConfig,
    /// Connection pool settings.
    pub pool: PoolConfig,
    /// Optional DuckLake catalog attachment.
    pub ducklake: Option<DuckLakeAttachConfig>,
}

/// Settings for the underlying DuckDB database file.
#[derive(Debug)]
pub struct DatabaseConfig {
    /// Path to the database file, or `:memory:` for an in-memory database.
    pub path: String,
}

/// Connection pool settings.
#[derive(Debug, Clone, Copy)]
pub struct PoolConfig {
    /// Largest number of connections kept open at once.
    pub size: u32,
    /// Seconds to wait for a free connection.
    pub connection_timeout_secs: u64,
}

/// Settings for attaching a DuckLake catalog to every new connection.
#[derive(Debug, Clone)]
pub struct DuckLakeAttachConfig {
    /// Path of the catalog database file.
    pub catalog_path: String,
    /// SQL alias of the attached catalog; the first part of
    /// `<catalog>.<schema>.<table>` references.
    pub catalog_name: String,
    /// Whether every new pooled connection installs, loads and attaches the
    /// catalog.
    pub auto_attach: bool,
}

impl PoolConfig {
    /// The pool size used when none is configured: 4.
    pub fn default_size() -> (r: u32)
        ensures
            r == 4,
    {
        4
    }

    /// The connection timeout used when none is configured: 30 seconds.
    pub fn default_timeout() -> (r: u64)
        ensures
            r == 30,
    {
        30
    }
}

impl Default for PoolConfig {
    fn default() -> (r: PoolConfig)
        ensures
            r.size == 4,
            r.connection_timeout_secs == 30,
    {
        PoolConfig { size: PoolConfig::default_size(), connection_timeout_secs: PoolConfig::default_timeout() }
    }
}

/// Message for a zero pool size.
pub open spec fn zero_pool_message() -> Seq<char> {
    "pool.size must be greater than 0"@
}

/// Message for a pool size above the ceiling.
pub open spec fn big_pool_message(size: u32) -> Seq<char> {
    "pool.size "@ + decimal(size as nat) + " exceeds the safety ceiling of "@ + decimal(
        MAX_POOL_SIZE as nat,
    )
}

/// The result of [`DuckLakeConfig::validate`], with the message of the error.
pub open spec fn config_check(c: DuckLakeConfig) -> Result<(), Seq<char>> {
    if c.pool.size == 0 {
        Err(zero_pool_message())
    } else if c.pool.size > MAX_POOL_SIZE {
        Err(big_pool_message(c.pool.size))
    } else {
        match c.ducklake {
            Some(dl) => if dl.auto_attach {
                identifier_check(dl.catalog_name@, "ducklake.catalog_name"@)
            } else {
                Ok(())
            },
            None => Ok(()),
        }
    }
}

impl DuckLakeConfig {
    /// Cross-field validation: the pool size lies in `1..=1024`, and when the
    /// catalog is attached automatically its name is a valid SQL identifier
    /// (it is interpolated unquoted into `ATTACH ... AS <name>`).
    pub fn validate(&self) -> (r: Result<(), DuckLakeError>)
        ensures
            match config_check(*self) {
                Ok(()) => r is Ok,
                Err(msg) => r matches Err(DuckLakeError::Config(m)) && m@ == msg,
            },
    {
        if self.pool.size == 0 {
            let mut m = String::new();
            push_str(&mut m, "pool.size must be greater than 0");
            assert(m@ =~= zero_pool_message());
            return Err(DuckLakeError::Config(m));
        }
        if self.pool.size > MAX_POOL_SIZE {
            let mut m = String::new();
            push_str(&mut m, "pool.size ");
            push_decimal(&mut m, self.pool.size as u64);
            push_str(&mut m, " exceeds the safety ceiling of ");
            push_decimal(&mut m, MAX_POOL_SIZE as u64);
            assert(m@ =~= big_pool_message(self.pool.size));
            return Err(DuckLakeError::Config(m));
        }
        match &self.ducklake {
            Some(dl) => {
                if dl.auto_attach {
                    return validate_identifier(dl.catalog_name.as_str(), "ducklake.catalog_name");
                }
            },
            None => {},
        }
        Ok(())
    }
}

/// Message for a zero connection timeout.
pub open spec fn zero_timeout_message() -> Seq<char> {
    "pool.connection_timeout_secs must be greater than 0"@
}

impl PoolConfig {
    /// Whether a pool can be built with these settings: a pool holds at
    /// least one connection and waits a positive time for one.
    pub fn check(&self) -> (r: Result<(), DuckLakeError>)
        ensures
            self.size == 0 ==> (r matches Err(DuckLakeError::Config(m)) && m@ == zero_pool_message()),
            self.size != 0 && self.connection_timeout_secs == 0 ==> (r matches Err(
                DuckLakeError::Config(m),
            ) && m@ == zero_timeout_message()),
            self.size != 0 && self.connection_timeout_secs != 0 ==> r is Ok,
    {
        if self.size == 0 {
            let mut m = String::new();
            push_str(&mut m, "pool.size must be greater than 0");
            return Err(DuckLakeError::Config(m));
        }
        if self.connection_timeout_secs == 0 {
            let mut m = String::new();
            push_str(&mut m, "pool.connection_timeout_secs must be greater than 0");
            return Err(DuckLakeError::Config(m));
        }
        Ok(())
    }
}

/// A configuration with the default pool settings and no DuckLake catalog is
/// valid, whatever its database path.
pub proof fn lemma_default_pool_is_valid(database: DatabaseConfig)
    ensures
        config_check(
            DuckLakeConfig {
                database,
                pool: PoolConfig { size: 4, connection_timeout_secs: 30 },
                ducklake: None,
            },
        ) is Ok,
{
}

} // verus!
