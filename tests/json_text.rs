use arrow::array::{ArrayRef, ListArray};
use arrow::datatypes::Int32Type;
use arrow::record_batch::RecordBatch;
use pqrs::json_text::{json_value_of_line, json_values};
use std::sync::Arc;

fn encoded_lines(array: ArrayRef, explicit_nulls: bool) -> Vec<String> {
    let batch = RecordBatch::try_from_iter([("", array)]).unwrap();
    let mut buf = Vec::new();
    {
        let mut writer = arrow::json::WriterBuilder::new()
            .with_explicit_nulls(explicit_nulls)
            .build::<_, arrow::json::writer::LineDelimited>(&mut buf);
        writer.write(&batch).unwrap();
        writer.finish().unwrap();
    }
    String::from_utf8(buf).unwrap().lines().map(String::from).collect()
}

fn list_with_null() -> ArrayRef {
    Arc::new(ListArray::from_iter_primitive::<Int32Type, _, _>(vec![
        Some(vec![Some(1), Some(2)]),
        None,
        Some(vec![]),
    ]))
}

#[test]
fn null_list_value_without_explicit_nulls() {
    let lines = encoded_lines(list_with_null(), false);
    assert_eq!(lines[1], "{}");
    let expected = vec!["[1,2]".to_string(), "null".to_string(), "[]".to_string()];
    assert_eq!(json_values(&lines), Some(expected));
}

#[test]
fn null_list_value_with_explicit_nulls() {
    let lines = encoded_lines(list_with_null(), true);
    let expected = vec!["[1,2]".to_string(), "null".to_string(), "[]".to_string()];
    assert_eq!(json_values(&lines), Some(expected));
}

#[test]
fn empty_object_line_is_null() {
    assert_eq!(json_value_of_line("{}"), Some("null".to_string()));
    assert_eq!(json_value_of_line("{]"), None);
}

#[test]
fn value_of_wrapped_line() {
    assert_eq!(json_value_of_line("{\"\":[1,2]}"), Some("[1,2]".to_string()));
    assert_eq!(json_value_of_line("{\"\":\"é\"}"), Some("\"é\"".to_string()));
}

#[test]
fn malformed_lines_rejected() {
    assert_eq!(json_value_of_line("{\"\":"), None);
    assert_eq!(json_value_of_line("{\"a\":1}"), None);
    assert_eq!(json_value_of_line("{\"\":1"), None);
}

#[test]
fn values_of_all_lines() {
    let lines = vec!["{\"\":{\"x\":1}}".to_string(), "{\"\":null}".to_string()];
    assert_eq!(json_values(&lines), Some(vec!["{\"x\":1}".to_string(), "null".to_string()]));
    let bad = vec!["{\"\":1}".to_string(), "oops".to_string()];
    assert_eq!(json_values(&bad), None);
}
