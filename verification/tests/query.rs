use ducklake_orm::error::DuckLakeError;
use ducklake_orm::query::bulk::{BulkAction, BulkRunner};
use ducklake_orm::query::delete::DeleteBuilder;
use ducklake_orm::query::filter::{ColumnExpr, FilterExpr};
use ducklake_orm::query::insert::{BulkInsertBuilder, InsertBuilder, OnConflict};
use ducklake_orm::query::rows::{first_row, first_row_optional};
use ducklake_orm::query::select::{Aggregate, SelectBuilder};
use ducklake_orm::query::table::{table_ref, TableInfo};
use ducklake_orm::query::update::UpdateBuilder;

/// Bound values in these tests: what the caller would hand to the database.
#[derive(Debug, Clone, PartialEq)]
enum V {
    I(i64),
    F(f64),
    S(&'static str),
}

fn sales() -> TableInfo {
    TableInfo {
        schema: "main".to_string(),
        table: "sales".to_string(),
        columns: vec!["id".to_string(), "amount".to_string(), "region".to_string()],
    }
}

fn col(name: &str) -> ColumnExpr {
    ColumnExpr::new(name)
}

fn select() -> SelectBuilder<V> {
    SelectBuilder::new(None, sales())
}

#[test]
fn table_reference_with_and_without_catalog() {
    assert_eq!(table_ref(None, "main", "sales"), "main.sales");
    assert_eq!(table_ref(Some("lake"), "main", "sales"), "lake.main.sales");
}

#[test]
fn select_all_columns() {
    let (sql, params) = select().build();
    assert_eq!(sql, "SELECT id, amount, region FROM main.sales");
    assert!(params.is_empty());
}

#[test]
fn select_under_catalog() {
    let (sql, _) = SelectBuilder::<V>::new(Some("lake".to_string()), sales()).build();
    assert_eq!(sql, "SELECT id, amount, region FROM lake.main.sales");
}

#[test]
fn filter_by_region_statement() {
    let (sql, params) = select().filter(col("region").eq(V::S("EU"))).build();
    assert_eq!(sql, "SELECT id, amount, region FROM main.sales WHERE region = $1");
    assert_eq!(params, vec![V::S("EU")]);
}

#[test]
fn filter_gt_amount_statement() {
    let (sql, params) = select().filter(col("amount").gt(V::F(100.0))).build();
    assert_eq!(sql, "SELECT id, amount, region FROM main.sales WHERE amount > $1");
    assert_eq!(params, vec![V::F(100.0)]);
}

#[test]
fn filter_combined_and_statement() {
    let (sql, params) = select()
        .filter(col("amount").gt(V::F(100.0)))
        .filter(col("region").eq(V::S("EU")))
        .build();
    assert_eq!(
        sql,
        "SELECT id, amount, region FROM main.sales WHERE amount > $1 AND region = $2"
    );
    assert_eq!(params, vec![V::F(100.0), V::S("EU")]);
}

#[test]
fn explicit_and_or_are_parenthesised() {
    let e: FilterExpr<V> = col("amount")
        .gte(V::F(10.0))
        .and(col("amount").lte(V::F(20.0)))
        .or(col("region").ne(V::S("US")));
    let (sql, params) = select().filter(e).build();
    assert_eq!(
        sql,
        "SELECT id, amount, region FROM main.sales WHERE ((amount >= $1 AND amount <= $2) OR region != $3)"
    );
    assert_eq!(params, vec![V::F(10.0), V::F(20.0), V::S("US")]);
}

#[test]
fn order_by_desc_and_limit_statement() {
    let (sql, _) = select().order_by(col("amount").desc()).limit(2).offset(1).build();
    assert_eq!(
        sql,
        "SELECT id, amount, region FROM main.sales ORDER BY amount DESC LIMIT 2 OFFSET 1"
    );
}

#[test]
fn several_order_terms() {
    let (sql, _) = select().order_by(col("region").asc()).order_by(col("id").desc()).build();
    assert_eq!(sql, "SELECT id, amount, region FROM main.sales ORDER BY region ASC, id DESC");
}

#[test]
fn between_filter_statement() {
    let (sql, params) = select().filter(col("amount").between(V::F(20.0), V::F(250.0))).build();
    assert_eq!(
        sql,
        "SELECT id, amount, region FROM main.sales WHERE amount BETWEEN $1 AND $2"
    );
    assert_eq!(params, vec![V::F(20.0), V::F(250.0)]);
}

#[test]
fn like_filter_statement() {
    let (sql, params) = select().filter(col("region").like(V::S("EU%"))).build();
    assert_eq!(sql, "SELECT id, amount, region FROM main.sales WHERE region LIKE $1");
    assert_eq!(params, vec![V::S("EU%")]);
}

#[test]
fn null_tests() {
    let (sql, params) = select()
        .filter(col("region").is_null())
        .filter(col("amount").is_not_null())
        .build();
    assert_eq!(
        sql,
        "SELECT id, amount, region FROM main.sales WHERE region IS NULL AND amount IS NOT NULL"
    );
    assert!(params.is_empty());
}

#[test]
fn in_filter_statement() {
    let (sql, params) = select().filter(col("region").in_(vec![V::S("EU"), V::S("US")])).build();
    assert_eq!(sql, "SELECT id, amount, region FROM main.sales WHERE region IN ($1, $2)");
    assert_eq!(params, vec![V::S("EU"), V::S("US")]);
}

#[test]
fn not_in_filter_statement() {
    let (sql, params) = select().filter(col("region").not_in(vec![V::S("EU")])).build();
    assert_eq!(sql, "SELECT id, amount, region FROM main.sales WHERE region NOT IN ($1)");
    assert_eq!(params, vec![V::S("EU")]);
}

#[test]
fn in_empty_returns_no_rows_statement() {
    let (sql, params) = select().filter(col("region").in_(Vec::<V>::new())).build();
    assert_eq!(sql, "SELECT id, amount, region FROM main.sales WHERE 1 = 0");
    assert!(params.is_empty());
}

#[test]
fn not_in_empty_keeps_every_row() {
    let (sql, _) = select().filter(col("region").not_in(Vec::<V>::new())).build();
    assert_eq!(sql, "SELECT id, amount, region FROM main.sales WHERE 1 = 1");
}

#[test]
fn group_by_region_statement() {
    let (sql, params) = select()
        .filter(col("amount").gt(V::F(0.0)))
        .group_by("region")
        .having(col("region").ne(V::S("XX")))
        .build();
    assert_eq!(
        sql,
        "SELECT id, amount, region FROM main.sales WHERE amount > $1 GROUP BY region HAVING region != $2"
    );
    assert_eq!(params, vec![V::F(0.0), V::S("XX")]);
}

#[test]
fn time_travel_by_version() {
    let (sql, _) = select().at_snapshot(3).build();
    assert_eq!(sql, "SELECT id, amount, region FROM main.sales AT (VERSION => 3)");
}

#[test]
fn time_travel_by_timestamp_is_escaped() {
    let (sql, _) = select().at_timestamp("2024-01-01").build();
    assert_eq!(
        sql,
        "SELECT id, amount, region FROM main.sales AT (TIMESTAMP => '2024-01-01')"
    );
    let (sql, _) = select().at_timestamp("x'); DROP TABLE t; --").build();
    assert_eq!(
        sql,
        "SELECT id, amount, region FROM main.sales AT (TIMESTAMP => 'x''); DROP TABLE t; --')"
    );
}

#[test]
fn count_with_filter_statement() {
    let (sql, params) = select()
        .filter(col("amount").gt(V::F(100.0)))
        .order_by(col("id").asc())
        .limit(5)
        .count();
    assert_eq!(sql, "SELECT COUNT(*) FROM main.sales WHERE amount > $1");
    assert_eq!(params, vec![V::F(100.0)]);
}

#[test]
fn aggregates() {
    assert_eq!(
        select().aggregate(Aggregate::Sum, col("amount")).0,
        "SELECT SUM(amount) FROM main.sales"
    );
    assert_eq!(
        select().aggregate(Aggregate::Avg, col("amount")).0,
        "SELECT AVG(amount) FROM main.sales"
    );
    let (sql, params) = select()
        .filter(col("region").eq(V::S("EU")))
        .aggregate(Aggregate::Min, col("amount"));
    assert_eq!(sql, "SELECT MIN(amount) FROM main.sales WHERE region = $1");
    assert_eq!(params, vec![V::S("EU")]);
    assert_eq!(
        select().aggregate(Aggregate::Max, col("amount")).0,
        "SELECT MAX(amount) FROM main.sales"
    );
}

#[test]
fn insert_statements() {
    let b = InsertBuilder::new(None, sales());
    assert_eq!(
        b.build_sql(),
        "INSERT INTO main.sales (id, amount, region) VALUES ($1, $2, $3)"
    );
    assert_eq!(
        InsertBuilder::new(None, sales()).or_replace().build_sql(),
        "INSERT OR REPLACE INTO main.sales (id, amount, region) VALUES ($1, $2, $3)"
    );
    assert_eq!(
        InsertBuilder::new(Some("lake".to_string()), sales()).or_ignore().build_sql(),
        "INSERT OR IGNORE INTO lake.main.sales (id, amount, region) VALUES ($1, $2, $3)"
    );
}

#[test]
fn execute_returning_id_statement() {
    let b = InsertBuilder::new(None, sales());
    assert_eq!(
        b.build_returning_sql(&col("id")),
        "INSERT INTO main.sales (id, amount, region) VALUES ($1, $2, $3) RETURNING id"
    );
}

#[test]
fn default_conflict_strategy_aborts() {
    assert_eq!(OnConflict::default(), OnConflict::Abort);
}

#[test]
fn bulk_insert_statement() {
    let b = BulkInsertBuilder::new(None, sales());
    assert_eq!(
        b.build_sql(),
        "INSERT INTO main.sales (id, amount, region) VALUES ($1, $2, $3)"
    );
}

#[test]
fn update_single_field_statement() {
    let (sql, params) = UpdateBuilder::new(None, sales())
        .set(col("amount"), V::F(999.0))
        .filter(col("id").eq(V::I(10)))
        .build()
        .unwrap();
    assert_eq!(sql, "UPDATE main.sales SET amount = $1 WHERE id = $2");
    assert_eq!(params, vec![V::F(999.0), V::I(10)]);
}

#[test]
fn update_multiple_fields_statement() {
    let (sql, params) = UpdateBuilder::new(None, sales())
        .set(col("amount"), V::F(500.0))
        .set(col("region"), V::S("APAC"))
        .filter(col("id").eq(V::I(10)))
        .filter(col("region").ne(V::S("US")))
        .build()
        .unwrap();
    assert_eq!(
        sql,
        "UPDATE main.sales SET amount = $1, region = $2 WHERE id = $3 AND region != $4"
    );
    assert_eq!(params, vec![V::F(500.0), V::S("APAC"), V::I(10), V::S("US")]);
}

#[test]
fn update_requires_filter_statement() {
    let result = UpdateBuilder::new(None, sales()).set(col("amount"), V::F(0.0)).build();
    assert!(matches!(result, Err(DuckLakeError::Query(_))));
    match result {
        Err(DuckLakeError::Query(m)) => assert_eq!(
            m,
            "UPDATE requires at least one .filter() to prevent full-table overwrite; call .update_all() if you intentionally want to update every row"
        ),
        _ => unreachable!(),
    }
}

#[test]
fn update_requires_set_statement() {
    let result = UpdateBuilder::new(None, sales()).filter(col("id").eq(V::I(1))).build();
    assert!(matches!(result, Err(DuckLakeError::Query(_))));
    match result {
        Err(DuckLakeError::Query(m)) => assert_eq!(m, "UPDATE requires at least one .set() call"),
        _ => unreachable!(),
    }
}

#[test]
fn update_all_explicit_statement() {
    let (sql, params) = UpdateBuilder::new(None, sales())
        .set(col("region"), V::S("GLOBAL"))
        .build_all()
        .unwrap();
    assert_eq!(sql, "UPDATE main.sales SET region = $1");
    assert_eq!(params, vec![V::S("GLOBAL")]);
    let none = UpdateBuilder::<V>::new(None, sales()).build_all();
    assert!(matches!(none, Err(DuckLakeError::Query(_))));
}

#[test]
fn delete_with_filter_statement() {
    let (sql, params) = DeleteBuilder::new(None, sales())
        .filter(col("region").eq(V::S("EU")))
        .build()
        .unwrap();
    assert_eq!(sql, "DELETE FROM main.sales WHERE region = $1");
    assert_eq!(params, vec![V::S("EU")]);
}

#[test]
fn delete_requires_filter_statement() {
    let result = DeleteBuilder::<V>::new(None, sales()).build();
    assert!(matches!(result, Err(DuckLakeError::Query(_))));
}

#[test]
fn delete_all_explicit_statement() {
    let b = DeleteBuilder::<V>::new(Some("lake".to_string()), sales());
    assert_eq!(b.build_all(), "DELETE FROM lake.main.sales");
}

#[test]
fn first_row_of_no_rows_is_not_found() {
    assert!(matches!(first_row(Vec::<i64>::new()), Err(DuckLakeError::NotFound)));
    assert_eq!(first_row(vec![42i64, 7]).unwrap(), 42);
}

#[test]
fn first_row_optional_takes_the_first() {
    assert_eq!(first_row_optional(vec![42i64]), Some(42));
    assert_eq!(first_row_optional(Vec::<i64>::new()), None);
}

fn drive_bulk(total: usize, outcomes: &[bool]) -> Vec<BulkAction> {
    let mut r = BulkRunner::new(total);
    let mut acts = vec![r.step(true)];
    for &ok in outcomes {
        acts.push(r.step(ok));
    }
    acts
}

#[test]
fn bulk_insert_all_succeed() {
    assert_eq!(
        drive_bulk(2, &[true; 4]),
        vec![BulkAction::Begin, BulkAction::Insert(0), BulkAction::Insert(1), BulkAction::Commit, BulkAction::Finish]
    );
    assert_eq!(drive_bulk(0, &[true; 2]), vec![BulkAction::Begin, BulkAction::Commit, BulkAction::Finish]);
}

#[test]
fn bulk_insert_failure_rolls_back() {
    assert_eq!(
        drive_bulk(3, &[true, true, false, true, true]),
        vec![
            BulkAction::Begin,
            BulkAction::Insert(0),
            BulkAction::Insert(1),
            BulkAction::Rollback,
            BulkAction::Abort,
            BulkAction::Abort
        ]
    );
    assert_eq!(
        drive_bulk(1, &[true, true, false, true]),
        vec![BulkAction::Begin, BulkAction::Insert(0), BulkAction::Commit, BulkAction::Rollback, BulkAction::Abort]
    );
}
