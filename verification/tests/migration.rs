use ducklake_orm::error::DuckLakeError;
use ducklake_orm::migration::batch::{BatchAction, BatchRunner, Phase};
use ducklake_orm::migration::directory::{parse_migration_filename, plan_directory};
use ducklake_orm::migration::migration::SqlMigration;
use ducklake_orm::migration::tracking::{
    applied_versions_query, create_tracking_statement, erase_applied_statement, record_applied_statement,
    tracking_rows_query,
};
use ducklake_orm::migration::migrator::{
    pending_plan, rollback_plan, stable_version_order, status_list, validate_unique_versions,
};

fn names(words: &[&str]) -> Vec<String> {
    words.iter().map(|w| w.to_string()).collect()
}

fn query_message<T: std::fmt::Debug>(r: Result<T, DuckLakeError>) -> String {
    match r {
        Err(DuckLakeError::Query(m)) => m,
        other => panic!("expected a query error, got {other:?}"),
    }
}

#[test]
fn sql_migration_accessors() {
    let m = SqlMigration::new(1, "create t", "CREATE TABLE main.t (id BIGINT)", "DROP TABLE main.t");
    assert_eq!(m.version(), 1);
    assert_eq!(m.description(), "create t");
    assert_eq!(m.up_sql(), "CREATE TABLE main.t (id BIGINT)");
    assert_eq!(m.down_sql().unwrap(), "DROP TABLE main.t");
}

#[test]
fn irreversible_migration_refuses_down() {
    let m = SqlMigration::new_irreversible(3, "drop legacy", "ALTER TABLE t DROP COLUMN c");
    assert_eq!(
        query_message(m.down_sql()),
        "migration v3 ('drop legacy') is not reversible: no down script was provided"
    );
}

#[test]
fn duplicate_versions_error_plan() {
    assert_eq!(
        query_message(validate_unique_versions(&vec![1, 1])),
        "duplicate migration version 1 registered"
    );
    assert!(validate_unique_versions(&vec![1, 2, 3]).is_ok());
    assert_eq!(
        query_message(validate_unique_versions(&vec![5, 2, 7, 2, 5])),
        "duplicate migration version 2 registered"
    );
}

#[test]
fn version_order_is_stable() {
    assert_eq!(stable_version_order(&vec![3, 1, 2]), vec![1, 2, 0]);
    assert_eq!(stable_version_order(&vec![2, 1, 2]), vec![1, 0, 2]);
    assert!(stable_version_order(&Vec::new()).is_empty());
}

#[test]
fn run_applies_pending_migrations_plan() {
    assert_eq!(pending_plan(&vec![1], &Vec::new()).unwrap(), vec![0]);
}

#[test]
fn pending_in_version_order() {
    assert_eq!(pending_plan(&vec![30, 10, 20], &vec![20]).unwrap(), vec![1, 0]);
    assert!(pending_plan(&vec![1, 1], &Vec::new()).is_err());
}

#[test]
fn run_is_idempotent_plan() {
    let versions = vec![1];
    let first = pending_plan(&versions, &Vec::new()).unwrap();
    let applied: Vec<i64> = first.iter().map(|&i| versions[i]).collect();
    let second = pending_plan(&versions, &applied).unwrap();
    assert_eq!(second.len(), 0);
}

#[test]
fn rollback_reverses_last_migration_plan() {
    let plan = rollback_plan(&vec![1, 2], &vec![1, 2], 1).unwrap();
    assert_eq!(plan.targets, vec![2]);
    assert_eq!(plan.indices, vec![1]);
    assert!(plan.error.is_none());
    let status = status_list(
        &vec![(1, "create t".to_string()), (2, "create u".to_string())],
        &vec![(1, None)],
    );
    assert!(status[0].applied);
    assert!(!status[1].applied);
}

#[test]
fn rollback_takes_at_most_what_is_applied() {
    let plan = rollback_plan(&vec![1, 2, 3], &vec![1, 2], 5).unwrap();
    assert_eq!(plan.targets, vec![2, 1]);
    assert_eq!(plan.indices, vec![1, 0]);
    assert!(plan.error.is_none());
}

#[test]
fn rollback_stops_at_unregistered_version() {
    let plan = rollback_plan(&vec![1], &vec![1, 2], 2).unwrap();
    assert_eq!(plan.targets, vec![2, 1]);
    assert!(plan.indices.is_empty());
    match plan.error {
        Some(DuckLakeError::Query(m)) => assert_eq!(
            m,
            "cannot roll back version 2: no migration registered for that version"
        ),
        other => panic!("unexpected {other:?}"),
    }
}

#[test]
fn status_reports_applied_and_pending_plan() {
    let status = status_list(
        &vec![(2, "create u".to_string()), (1, "create t".to_string())],
        &vec![(1, Some("2024-01-01 00:00:00".to_string()))],
    );
    assert_eq!(status.len(), 2);
    assert!(status[0].applied);
    assert_eq!(status[0].version, 1);
    assert_eq!(status[0].description, "create t");
    assert_eq!(status[0].applied_at, Some("2024-01-01 00:00:00".to_string()));
    assert!(!status[1].applied);
    assert_eq!(status[1].version, 2);
    assert_eq!(status[1].applied_at, None);
}

#[test]
fn migration_file_names() {
    assert_eq!(
        parse_migration_filename("V1__create_users.up.sql"),
        Some((1, "create_users".to_string(), false))
    );
    assert_eq!(
        parse_migration_filename("V20250101__add_col.down.sql"),
        Some((20250101, "add_col".to_string(), true))
    );
    assert_eq!(parse_migration_filename("V1__.up.sql"), None);
    assert_eq!(parse_migration_filename("V__x.up.sql"), None);
    assert_eq!(parse_migration_filename("1__x.up.sql"), None);
    assert_eq!(parse_migration_filename("V1_x.up.sql"), None);
    assert_eq!(parse_migration_filename("V1__x.sql"), None);
    assert_eq!(parse_migration_filename("V1__a.b.up.sql"), None);
    assert_eq!(parse_migration_filename("V-1__x.up.sql"), None);
    assert_eq!(parse_migration_filename("V99999999999999999999__x.up.sql"), None);
    assert_eq!(parse_migration_filename("README.md"), None);
    assert_eq!(
        parse_migration_filename("V9223372036854775807__max.up.sql"),
        Some((i64::MAX, "max".to_string(), false))
    );
    assert_eq!(
        parse_migration_filename("V1__with__underscores.up.sql"),
        Some((1, "with__underscores".to_string(), false))
    );
}

#[test]
fn directory_plan_pairs_files() {
    let plan = plan_directory(&names(&[
        "V2__add_sold_at.up.sql",
        "V1__create_sales.down.sql",
        "README.md",
        "V1__create_sales.up.sql",
        "V3__drop_legacy_column.up.sql",
    ]))
    .unwrap();
    assert_eq!(plan.len(), 3);
    assert_eq!(plan[0].version, 2);
    assert_eq!(plan[0].description, "add_sold_at");
    assert_eq!(plan[0].up_file, "V2__add_sold_at.up.sql");
    assert_eq!(plan[0].down_file, None);
    assert_eq!(plan[1].version, 1);
    assert_eq!(plan[1].up_file, "V1__create_sales.up.sql");
    assert_eq!(plan[1].down_file, Some("V1__create_sales.down.sql".to_string()));
    assert_eq!(plan[2].version, 3);
    assert_eq!(plan[2].description, "drop_legacy_column");
}

#[test]
fn directory_without_migrations_is_empty() {
    assert!(plan_directory(&names(&["notes.txt"])).unwrap().is_empty());
    assert!(plan_directory(&Vec::new()).unwrap().is_empty());
}

#[test]
fn directory_down_without_up_is_refused() {
    assert_eq!(
        query_message(plan_directory(&names(&["V4__x.down.sql"]))),
        "migration V4 ('x'): no .up.sql file found"
    );
}

#[test]
fn directory_repeated_version_is_refused() {
    assert_eq!(
        query_message(plan_directory(&names(&["V1__a.up.sql", "V1__b.up.sql"]))),
        "migration V1: more than one .up.sql file found"
    );
    assert_eq!(
        query_message(plan_directory(&names(&[
            "V1__a.up.sql",
            "V1__a.down.sql",
            "V1__b.down.sql"
        ]))),
        "migration V1: more than one .down.sql file found"
    );
}

fn drive(total: usize, outcomes: &[bool]) -> Vec<BatchAction> {
    let mut r = BatchRunner::new(total);
    let mut acts = vec![r.step(true)];
    for &ok in outcomes {
        acts.push(r.step(ok));
    }
    acts
}

#[test]
fn batch_of_two_steps_succeeding() {
    let acts = drive(2, &[true; 8]);
    assert_eq!(
        acts,
        vec![
            BatchAction::Begin,
            BatchAction::Perform(0),
            BatchAction::Record(0),
            BatchAction::Commit,
            BatchAction::Begin,
            BatchAction::Perform(1),
            BatchAction::Record(1),
            BatchAction::Commit,
            BatchAction::Finish(2)
        ]
    );
}

#[test]
fn empty_batch_finishes_at_once() {
    let mut r = BatchRunner::new(0);
    assert_eq!(r.step(true), BatchAction::Finish(0));
    assert_eq!(r.phase(), Phase::Finished);
    assert_eq!(r.done(), r.total());
}

#[test]
fn failed_script_is_rolled_back() {
    let acts = drive(3, &[true, false, true, true]);
    assert_eq!(acts, vec![BatchAction::Begin, BatchAction::Perform(0), BatchAction::Rollback, BatchAction::Abort, BatchAction::Abort]);
}

#[test]
fn failed_commit_aborts() {
    let acts = drive(2, &[true, true, true, false, true]);
    assert_eq!(acts, vec![BatchAction::Begin, BatchAction::Perform(0), BatchAction::Record(0), BatchAction::Commit, BatchAction::Abort, BatchAction::Abort]);
}

#[test]
fn tracking_table_statements() {
    assert_eq!(
        create_tracking_statement(),
        "CREATE TABLE IF NOT EXISTS main._ducklake_migrations (version BIGINT PRIMARY KEY, description VARCHAR NOT NULL, applied_at TIMESTAMP DEFAULT CURRENT_TIMESTAMP)"
    );
    assert_eq!(
        record_applied_statement(),
        "INSERT INTO main._ducklake_migrations (version, description) VALUES ($1, $2)"
    );
    assert_eq!(
        erase_applied_statement(),
        "DELETE FROM main._ducklake_migrations WHERE version = $1"
    );
    assert_eq!(
        applied_versions_query(),
        "SELECT version FROM main._ducklake_migrations ORDER BY version ASC"
    );
    assert_eq!(
        tracking_rows_query(),
        "SELECT version, CAST(applied_at AS VARCHAR) FROM main._ducklake_migrations"
    );
}

#[test]
fn rolled_back_versions_are_pending_again() {
    let versions = vec![1, 2, 3];
    let applied = vec![1, 2, 3];
    let plan = rollback_plan(&versions, &applied, 2).unwrap();
    assert_eq!(plan.targets, vec![3, 2]);
    let rest: Vec<i64> = applied[..applied.len() - plan.targets.len()].to_vec();
    assert_eq!(pending_plan(&versions, &rest).unwrap(), vec![1, 2]);
}

#[test]
fn written_file_names_read_back() {
    for (v, d) in [(0i64, "init"), (7, "add_col"), (20250101, "x_y_z"), (i64::MAX, "last")] {
        let up = format!("V{v}__{d}.up.sql");
        let down = format!("V{v}__{d}.down.sql");
        assert_eq!(parse_migration_filename(&up), Some((v, d.to_string(), false)));
        assert_eq!(parse_migration_filename(&down), Some((v, d.to_string(), true)));
    }
}

#[test]
fn status_is_sorted_and_covers_every_migration() {
    let status = status_list(
        &vec![(3, "c".to_string()), (1, "a".to_string()), (2, "b".to_string())],
        &vec![(3, None), (1, Some("t".to_string()))],
    );
    let versions: Vec<i64> = status.iter().map(|s| s.version).collect();
    assert_eq!(versions, vec![1, 2, 3]);
    assert!(status[0].applied && !status[1].applied && status[2].applied);
    assert_eq!(status[0].applied_at, Some("t".to_string()));
    assert_eq!(status[2].applied_at, None);
}
