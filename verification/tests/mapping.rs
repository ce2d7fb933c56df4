use ducklake_orm::mapping::{insert_values, rename, table_mapping, FieldSpec, RenameRule};
use ducklake_orm::naming::ItemShape;

fn field(name: &str) -> FieldSpec {
    FieldSpec { name: name.to_string(), column: None, skip_insert: false, skip: false }
}

fn strings(words: &[&str]) -> Vec<String> {
    words.iter().map(|w| w.to_string()).collect()
}

#[test]
fn column_override_and_skip() {
    let fields = vec![
        field("id"),
        FieldSpec { column: Some("region_code".to_string()), ..field("region") },
        FieldSpec { skip: true, ..field("note") },
    ];
    let m = table_mapping("T", &Vec::new(), ItemShape::NamedStruct, &fields).unwrap();
    assert_eq!(m.select.table, "t");
    assert_eq!(m.select.schema, "main");
    assert_eq!(m.select.columns, strings(&["id", "region_code"]));
    assert_eq!(m.insert.columns, strings(&["id", "region_code"]));
}

#[test]
fn skip_insert_keeps_select() {
    let fields = vec![FieldSpec { skip_insert: true, ..field("id") }, field("amount")];
    let m = table_mapping("Sale", &Vec::new(), ItemShape::NamedStruct, &fields).unwrap();
    assert_eq!(m.select.columns, strings(&["id", "amount"]));
    assert_eq!(m.insert.columns, strings(&["amount"]));
    assert_eq!(m.insert.table, "sale");
}

#[test]
fn rename_all_applies_unless_overridden() {
    let settings = vec![
        ("rename_all".to_string(), "camelCase".to_string()),
        ("table".to_string(), "sales".to_string()),
    ];
    let fields = vec![
        field("sold_at"),
        FieldSpec { column: Some("ID".to_string()), ..field("sale_id") },
    ];
    let m = table_mapping("Sale", &settings, ItemShape::NamedStruct, &fields).unwrap();
    assert_eq!(m.select.table, "sales");
    assert_eq!(m.select.columns, strings(&["soldAt", "ID"]));
}

#[test]
fn unsupported_rename_rule_renames_nothing() {
    let settings = vec![("rename_all".to_string(), "Title Case".to_string())];
    let m = table_mapping("Sale", &settings, ItemShape::NamedStruct, &vec![field("sold_at")]).unwrap();
    assert_eq!(m.select.columns, strings(&["sold_at"]));
    assert_eq!(m.insert.columns, strings(&["sold_at"]));
}

#[test]
fn mapping_needs_named_fields() {
    assert_eq!(
        table_mapping("P", &Vec::new(), ItemShape::OtherStruct, &Vec::new()).unwrap_err(),
        "#[derive(Table)] only supports structs with named fields"
    );
    assert_eq!(
        table_mapping("E", &Vec::new(), ItemShape::NotStruct, &Vec::new()).unwrap_err(),
        "#[derive(Table)] only supports structs"
    );
}

#[test]
fn rename_rules() {
    assert_eq!(rename(RenameRule::SnakeCase, "sold_at"), "sold_at");
    assert_eq!(rename(RenameRule::SnakeCase, "soldAt"), "sold_at");
    assert_eq!(rename(RenameRule::ScreamingSnakeCase, "sold_at"), "SOLD_AT");
    assert_eq!(rename(RenameRule::KebabCase, "sold_at"), "sold-at");
    assert_eq!(rename(RenameRule::CamelCase, "sold_at_time"), "soldAtTime");
    assert_eq!(rename(RenameRule::CamelCase, "_private_x"), "privateX");
    assert_eq!(rename(RenameRule::PascalCase, "sold_at"), "SoldAt");
    assert_eq!(rename(RenameRule::Lowercase, "SoldAt"), "soldat");
    assert_eq!(rename(RenameRule::Uppercase, "sold_at"), "SOLD_AT");
}

#[test]
fn insert_values_follow_insert_columns() {
    let fields = vec![
        FieldSpec { skip_insert: true, ..field("id") },
        field("amount"),
        FieldSpec { skip: true, ..field("note") },
        FieldSpec { column: Some("region_code".to_string()), ..field("region") },
    ];
    let m = table_mapping("Sale", &Vec::new(), ItemShape::NamedStruct, &fields).unwrap();
    assert_eq!(m.insert.columns, strings(&["amount", "region_code"]));
    let values = insert_values(&fields, vec![1, 250, 0, 7]);
    assert_eq!(values, vec![250, 7]);
}
