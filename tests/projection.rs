use pqrs::formats::NestedFieldFormat;
use pqrs::projection::{nested_field_names, nested_fields_to_json, ColumnAction, FieldInfo};

fn field(name: &str, nested: bool) -> FieldInfo {
    FieldInfo { name: name.to_string(), nested }
}

fn id_and_tags() -> Vec<FieldInfo> {
    vec![field("id", false), field("tags", true)]
}

#[test]
fn omit_drops_list_column() {
    let plan = nested_fields_to_json(&id_and_tags(), NestedFieldFormat::Omit).ok().unwrap();
    assert_eq!(plan, vec![ColumnAction::Keep(0)]);
}

#[test]
fn json_encodes_list_column() {
    let plan = nested_fields_to_json(&id_and_tags(), NestedFieldFormat::Json).ok().unwrap();
    assert_eq!(plan, vec![ColumnAction::Keep(0), ColumnAction::Encode(1)]);
}

#[test]
fn error_lists_every_nested_field_in_order() {
    let fields = vec![
        field("a", true),
        field("b", false),
        field("c", true),
        field("d", false),
    ];
    match nested_fields_to_json(&fields, NestedFieldFormat::Error) {
        Err(e) => assert_eq!(e.fields, vec!["a".to_string(), "c".to_string()]),
        Ok(_) => panic!("nested fields must be reported"),
    }
}

#[test]
fn error_without_nested_keeps_all() {
    let fields = vec![field("x", false), field("y", false)];
    let plan = nested_fields_to_json(&fields, NestedFieldFormat::Error).ok().unwrap();
    assert_eq!(plan, vec![ColumnAction::Keep(0), ColumnAction::Keep(1)]);
}

#[test]
fn zero_fields_under_every_policy() {
    for p in [NestedFieldFormat::Error, NestedFieldFormat::Omit, NestedFieldFormat::Json] {
        let plan = nested_fields_to_json(&vec![], p).ok().unwrap();
        assert!(plan.is_empty());
    }
}

#[test]
fn omit_keeps_scalar_order() {
    let fields = vec![
        field("m", true),
        field("a", false),
        field("s", true),
        field("b", false),
    ];
    let plan = nested_fields_to_json(&fields, NestedFieldFormat::Omit).ok().unwrap();
    assert_eq!(plan, vec![ColumnAction::Keep(1), ColumnAction::Keep(3)]);
}

#[test]
fn names_of_nested_fields() {
    assert_eq!(nested_field_names(&id_and_tags()), vec!["tags".to_string()]);
}
