use ducklake_orm::config::{DatabaseConfig, DuckLakeAttachConfig, DuckLakeConfig, PoolConfig};
use ducklake_orm::connection::{attach_statement, catalog_of, connection_setup, install_statement};
use ducklake_orm::error::DuckLakeError;

fn config(size: u32, ducklake: Option<DuckLakeAttachConfig>) -> DuckLakeConfig {
    DuckLakeConfig {
        database: DatabaseConfig { path: ":memory:".to_string() },
        pool: PoolConfig { size, connection_timeout_secs: 30 },
        ducklake,
    }
}

fn attach(name: &str, auto_attach: bool) -> DuckLakeAttachConfig {
    DuckLakeAttachConfig {
        catalog_path: "catalog.ducklake".to_string(),
        catalog_name: name.to_string(),
        auto_attach,
    }
}

fn config_error(r: Result<(), DuckLakeError>) -> String {
    match r {
        Err(DuckLakeError::Config(m)) => m,
        other => panic!("expected a configuration error, got {other:?}"),
    }
}

#[test]
fn pool_defaults() {
    assert_eq!(PoolConfig::default_size(), 4);
    assert_eq!(PoolConfig::default_timeout(), 30);
    let p = PoolConfig::default();
    assert_eq!(p.size, 4);
    assert_eq!(p.connection_timeout_secs, 30);
}

#[test]
fn default_configuration_is_valid() {
    assert!(config(4, None).validate().is_ok());
}

#[test]
fn pool_size_bounds() {
    assert_eq!(config_error(config(0, None).validate()), "pool.size must be greater than 0");
    assert!(config(1, None).validate().is_ok());
    assert!(config(1024, None).validate().is_ok());
    assert_eq!(
        config_error(config(2000, None).validate()),
        "pool.size 2000 exceeds the safety ceiling of 1024"
    );
}

#[test]
fn catalog_name_checked_only_when_attached() {
    assert!(config(4, Some(attach("lake", true))).validate().is_ok());
    assert!(config(4, Some(attach("bad name", false))).validate().is_ok());
    assert_eq!(
        config_error(config(4, Some(attach("bad name", true))).validate()),
        "ducklake.catalog_name 'bad name' is not a valid SQL identifier; only ASCII letters, digits, and underscores are allowed (and it must not start with a digit)"
    );
}

#[test]
fn attach_statement_text() {
    assert_eq!(install_statement(), "INSTALL ducklake; LOAD ducklake;");
    assert_eq!(
        attach_statement("catalog.ducklake", "lake").unwrap(),
        "ATTACH 'catalog.ducklake' AS lake (TYPE DUCKLAKE)"
    );
    assert_eq!(
        attach_statement("it's.ducklake", "lake").unwrap(),
        "ATTACH 'it''s.ducklake' AS lake (TYPE DUCKLAKE)"
    );
    assert!(matches!(
        attach_statement("c.ducklake", "lake; DROP TABLE t"),
        Err(DuckLakeError::Config(_))
    ));
}

#[test]
fn pooled_connection_setup() {
    assert!(connection_setup(&None).unwrap().is_empty());
    assert!(connection_setup(&Some(attach("lake", false))).unwrap().is_empty());
    let stmts = connection_setup(&Some(attach("lake", true))).unwrap();
    assert_eq!(
        stmts,
        vec![
            "INSTALL ducklake; LOAD ducklake;".to_string(),
            "ATTACH 'catalog.ducklake' AS lake (TYPE DUCKLAKE)".to_string(),
        ]
    );
    assert!(connection_setup(&Some(attach("1lake", true))).is_err());
}

#[test]
fn catalog_follows_configuration() {
    assert_eq!(catalog_of(&None), None);
    assert_eq!(catalog_of(&Some(attach("lake", false))), Some("lake".to_string()));
}

#[test]
fn pool_settings_must_be_positive() {
    assert!(PoolConfig { size: 4, connection_timeout_secs: 30 }.check().is_ok());
    assert_eq!(
        config_error(PoolConfig { size: 0, connection_timeout_secs: 30 }.check()),
        "pool.size must be greater than 0"
    );
    assert_eq!(
        config_error(PoolConfig { size: 4, connection_timeout_secs: 0 }.check()),
        "pool.connection_timeout_secs must be greater than 0"
    );
}
