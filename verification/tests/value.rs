use dojo_torii::storage::StorageErrorKind;
use dojo_torii::value::{extract, ExtractErrorKind, ScalarValue, ValueMapping};

fn sample() -> ValueMapping {
    let mut values = ValueMapping::new();
    values.insert("id".to_string(), ScalarValue::String("0x1".to_string()));
    values.insert("count".to_string(), ScalarValue::Number(-7));
    values.insert("live".to_string(), ScalarValue::Boolean(true));
    values.insert("gone".to_string(), ScalarValue::Null);
    values
}

#[test]
fn extract_by_type() {
    let values = sample();
    assert_eq!(extract::<String>(&values, "id"), Ok("0x1".to_string()));
    assert_eq!(extract::<i64>(&values, "count"), Ok(-7));
    assert_eq!(extract::<bool>(&values, "live"), Ok(true));
}

#[test]
fn extract_missing_field() {
    let values = sample();
    let e = extract::<String>(&values, "name").unwrap_err();
    assert_eq!(e.kind, ExtractErrorKind::FieldMissing);
    assert_eq!(e.field, "name");
    let e = extract::<i64>(&ValueMapping::new(), "count").unwrap_err();
    assert_eq!(e.kind, ExtractErrorKind::FieldMissing);
}

#[test]
fn extract_type_mismatch() {
    let values = sample();
    let e = extract::<i64>(&values, "id").unwrap_err();
    assert_eq!((e.kind, e.field.as_str()), (ExtractErrorKind::TypeMismatch, "id"));
    let e = extract::<String>(&values, "count").unwrap_err();
    assert_eq!((e.kind, e.field.as_str()), (ExtractErrorKind::TypeMismatch, "count"));
    let e = extract::<bool>(&values, "count").unwrap_err();
    assert_eq!(e.kind, ExtractErrorKind::TypeMismatch);
    let e = extract::<String>(&values, "gone").unwrap_err();
    assert_eq!(e.kind, ExtractErrorKind::TypeMismatch);
    let e = extract::<bool>(&values, "gone").unwrap_err();
    assert_eq!(e.kind, ExtractErrorKind::TypeMismatch);
}

#[test]
fn value_table_keeps_order_and_positions() {
    let mut values = sample();
    assert_eq!(values.len(), 4);
    let previous = values.insert("count".to_string(), ScalarValue::Number(8));
    assert_eq!(previous, Some(ScalarValue::Number(-7)));
    assert_eq!(values.len(), 4);
    let (name, value) = values.get_index(1).unwrap();
    assert_eq!((name.as_str(), value), ("count", &ScalarValue::Number(8)));
    let (name, value) = values.get_index(3).unwrap();
    assert_eq!((name.as_str(), value), ("gone", &ScalarValue::Null));
    assert!(values.get_index(4).is_none());
    assert_eq!(values.get("live"), Some(&ScalarValue::Boolean(true)));
    assert_eq!(values.get("Live"), None);
}

#[test]
fn value_clone_keeps_the_value() {
    for value in [
        ScalarValue::Null,
        ScalarValue::Number(i64::MIN),
        ScalarValue::Boolean(false),
        ScalarValue::String("x".to_string()),
    ] {
        assert_eq!(value.clone(), value);
    }
}

#[test]
fn extraction_and_decoding_faults_in_words() {
    assert_eq!(ExtractErrorKind::FieldMissing.message(), "field missing");
    assert_eq!(ExtractErrorKind::TypeMismatch.message(), "type mismatch");
    assert_eq!(StorageErrorKind::UnknownType.message(), "unknown type");
    assert_eq!(StorageErrorKind::MissingColumn.message(), "column missing");
    assert_eq!(StorageErrorKind::TypeMismatch.message(), "type mismatch");
}
