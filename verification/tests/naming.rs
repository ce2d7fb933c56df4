use ducklake_orm::naming::{table_definition, to_snake_case, ItemShape};

fn strings(words: &[&str]) -> Vec<String> {
    words.iter().map(|w| w.to_string()).collect()
}

#[test]
fn snake_case_of_struct_names() {
    assert_eq!(to_snake_case("Sale"), "sale");
    assert_eq!(to_snake_case("SaleItem"), "sale_item");
    assert_eq!(to_snake_case("HTTPRequest"), "h_t_t_p_request");
    assert_eq!(to_snake_case("camelCase"), "camel_case");
    assert_eq!(to_snake_case(""), "");
    assert_eq!(to_snake_case("already_snake"), "already_snake");
}

#[test]
fn table_definition_defaults() {
    let info = table_definition(
        "SaleItem",
        &Vec::new(),
        ItemShape::NamedStruct,
        &strings(&["id", "amount"]),
    )
    .unwrap();
    assert_eq!(info.table, "sale_item");
    assert_eq!(info.schema, "main");
    assert_eq!(info.columns, strings(&["id", "amount"]));
}

#[test]
fn table_definition_settings_override_defaults() {
    let settings = vec![
        ("table".to_string(), "sales".to_string()),
        ("schema".to_string(), "analytics".to_string()),
        ("table".to_string(), "sales_2024".to_string()),
    ];
    let info = table_definition(
        "Sale",
        &settings,
        ItemShape::NamedStruct,
        &strings(&["id", "amount", "region"]),
    )
    .unwrap();
    assert_eq!(info.table, "sales_2024");
    assert_eq!(info.schema, "analytics");
    assert_eq!(info.columns, strings(&["id", "amount", "region"]));
}

#[test]
fn table_definition_needs_named_fields() {
    let err = table_definition("Pair", &Vec::new(), ItemShape::OtherStruct, &Vec::new()).unwrap_err();
    assert_eq!(err, "#[derive(Table)] only supports structs with named fields");
    let err = table_definition("Kind", &Vec::new(), ItemShape::NotStruct, &Vec::new()).unwrap_err();
    assert_eq!(err, "#[derive(Table)] only supports structs");
}

#[test]
fn snake_case_of_ascii_names_is_settled() {
    for name in ["Sale", "SaleItem", "HTTPRequest", "camelCase", "a1B2", "_Hidden"] {
        let r = to_snake_case(name);
        assert!(!r.chars().any(|c| c.is_ascii_uppercase()));
        let capitals = name.chars().skip(1).filter(|c| c.is_ascii_uppercase()).count();
        assert_eq!(r.len(), name.len() + capitals);
        assert_eq!(to_snake_case(&r), r);
    }
}
