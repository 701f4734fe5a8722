use dojo_torii::component::{component_lookup, storage_lookup, value_mapping, Component};
use dojo_torii::definition::type_mapping_from_definition;
use dojo_torii::object::{Field, InputValue, ObjectTrait, Resolver, TypeRef};
use dojo_torii::storage::{
    storage_by_column, storage_query, value_mapping_from_row, ColumnName, ColumnValue, Row,
    StorageErrorKind, StorageObject,
};
use dojo_torii::timestamp::Timestamp;
use dojo_torii::type_mapping::TypeMapping;
use dojo_torii::value::{ScalarValue, ValueMapping};

fn row(columns: &[(&str, ColumnValue)]) -> Row {
    Row {
        columns: columns
            .iter()
            .map(|(name, value)| {
                let value = match value {
                    ColumnValue::Null => ColumnValue::Null,
                    ColumnValue::Integer(n) => ColumnValue::Integer(*n),
                    ColumnValue::Text(t) => ColumnValue::Text(t.clone()),
                };
                (name.to_string(), value)
            })
            .collect(),
    }
}

fn text(s: &str) -> ColumnValue {
    ColumnValue::Text(s.to_string())
}

fn entries(values: &ValueMapping) -> Vec<(String, ScalarValue)> {
    let mut out = Vec::new();
    let mut i = 0;
    while let Some((name, value)) = values.get_index(i) {
        out.push((name.clone(), value.clone()));
        i += 1;
    }
    out
}

fn fields(definition: &str) -> TypeMapping {
    type_mapping_from_definition(definition, "Position").unwrap()
}

#[test]
fn decodes_by_the_field_table() {
    let r = row(&[
        ("id", ColumnValue::Integer(1)),
        ("component_id", text("0x1")),
        ("x", text("0x2a")),
        ("y", text("0x2b")),
    ]);
    let values = value_mapping_from_row(&r, &fields("x:Felt,y:Felt")).unwrap();
    assert_eq!(
        entries(&values),
        vec![
            ("x".to_string(), ScalarValue::String("0x2a".to_string())),
            ("y".to_string(), ScalarValue::String("0x2b".to_string())),
        ]
    );
}

#[test]
fn column_order_does_not_matter() {
    let one = row(&[("component_id", text("0x1")), ("x", text("0x2a")), ("y", text("0x2b"))]);
    let other = row(&[("y", text("0x2b")), ("x", text("0x2a")), ("component_id", text("0x1"))]);
    let mapping = fields("x:Felt,y:Felt");
    let a = value_mapping_from_row(&one, &mapping).unwrap();
    let b = value_mapping_from_row(&other, &mapping).unwrap();
    assert_eq!(entries(&a), entries(&b));
    let (first, _) = b.get_index(0).unwrap();
    assert_eq!(first, "x");
}

#[test]
fn field_order_is_the_table_s() {
    let r = row(&[("x", text("1")), ("y", text("2"))]);
    let values = value_mapping_from_row(&r, &fields("y:Felt,x:Felt")).unwrap();
    assert_eq!(
        entries(&values),
        vec![
            ("y".to_string(), ScalarValue::String("2".to_string())),
            ("x".to_string(), ScalarValue::String("1".to_string())),
        ]
    );
}

#[test]
fn empty_column_decodes_to_null() {
    let r = row(&[("x", ColumnValue::Null), ("y", text(""))]);
    let values = value_mapping_from_row(&r, &fields("x:Felt,y:String")).unwrap();
    assert_eq!(values.get("x"), Some(&ScalarValue::Null));
    assert_eq!(values.get("y"), Some(&ScalarValue::String(String::new())));
}

#[test]
fn missing_column_is_an_error() {
    let r = row(&[("x", text("1"))]);
    let e = value_mapping_from_row(&r, &fields("x:Felt,y:Felt")).unwrap_err();
    assert_eq!((e.kind, e.field.as_str()), (StorageErrorKind::MissingColumn, "y"));
}

#[test]
fn number_in_a_text_field_is_an_error() {
    let r = row(&[("x", ColumnValue::Integer(7)), ("y", text("1"))]);
    let e = value_mapping_from_row(&r, &fields("y:Felt,x:Felt")).unwrap_err();
    assert_eq!((e.kind, e.field.as_str()), (StorageErrorKind::TypeMismatch, "x"));
}

#[test]
fn unknown_type_in_the_table_is_an_error() {
    let mut mapping = TypeMapping::new();
    mapping.insert("x".to_string(), "Felt".to_string());
    mapping.insert("y".to_string(), "u256".to_string());
    let r = row(&[("x", text("1")), ("y", text("2"))]);
    let e = value_mapping_from_row(&r, &mapping).unwrap_err();
    assert_eq!((e.kind, e.field.as_str()), (StorageErrorKind::UnknownType, "y"));
}

#[test]
fn empty_table_decodes_to_empty_record() {
    let r = row(&[("x", text("1"))]);
    let values = value_mapping_from_row(&r, &TypeMapping::new()).unwrap();
    assert_eq!(values.len(), 0);
}

#[test]
fn row_lookup_takes_the_first_column_of_a_name() {
    let r = row(&[("x", text("1")), ("x", text("2"))]);
    assert_eq!(r.get("x"), Some(&text("1")));
    assert_eq!(r.get("y"), None);
}

#[test]
fn storage_is_found_by_column_and_tagged() {
    let rows = vec![
        row(&[("id", text("7")), ("component_id", text("0x9")), ("x", text("a")), ("y", text("b"))]),
        row(&[("id", text("8")), ("component_id", text("0x1")), ("x", text("c")), ("y", text("d"))]),
    ];
    let mapping = fields("x:Felt,y:Felt");
    let found = storage_by_column(&rows, ColumnName::ComponentId, "0x1", "Position", &mapping)
        .unwrap()
        .unwrap();
    assert_eq!(found.typename, "Position");
    assert_eq!(
        entries(&found.values),
        vec![
            ("x".to_string(), ScalarValue::String("c".to_string())),
            ("y".to_string(), ScalarValue::String("d".to_string())),
        ]
    );
    let by_id = storage_by_column(&rows, ColumnName::Id, "7", "Position", &mapping)
        .unwrap()
        .unwrap();
    assert_eq!(by_id.values.get("x"), Some(&ScalarValue::String("a".to_string())));
}

#[test]
fn storage_without_matching_row_is_absent() {
    let rows = vec![row(&[("component_id", text("0x9")), ("x", text("a"))])];
    let mapping = fields("x:Felt");
    assert_eq!(
        storage_by_column(&rows, ColumnName::ComponentId, "0x1", "Position", &mapping),
        Ok(None)
    );
    assert_eq!(
        storage_by_column(&Vec::new(), ColumnName::ComponentId, "0x1", "Position", &mapping),
        Ok(None)
    );
    let numbered = vec![row(&[("component_id", ColumnValue::Integer(1)), ("x", text("a"))])];
    assert_eq!(
        storage_by_column(&numbered, ColumnName::ComponentId, "1", "Position", &mapping),
        Ok(None)
    );
}

#[test]
fn storage_row_that_does_not_fit_is_an_error() {
    let rows = vec![row(&[("component_id", text("0x1")), ("x", text("a"))])];
    let e = storage_by_column(&rows, ColumnName::ComponentId, "0x1", "Position", &fields("x:Felt,y:Felt"))
        .unwrap_err();
    assert_eq!((e.kind, e.field.as_str()), (StorageErrorKind::MissingColumn, "y"));
}

#[test]
fn query_text() {
    assert_eq!(ColumnName::Id.as_str(), "id");
    assert_eq!(ColumnName::ComponentId.as_str(), "component_id");
    assert_eq!(
        storage_query("Position", ColumnName::ComponentId),
        "SELECT * FROM Position WHERE component_id = ?"
    );
    assert_eq!(storage_query("Moves", ColumnName::Id), "SELECT * FROM Moves WHERE id = ?");
}

#[test]
fn storage_object_describes_itself() {
    let object = StorageObject::new("position".to_string(), "Position".to_string(), fields("x:Felt"));
    assert_eq!(object.name(), "position");
    assert_eq!(object.typename(), "Position");
    assert_eq!(object.field_type_mapping().to_vec(), vec![("x".to_string(), "Felt".to_string())]);
    assert_eq!(object.unions(), None);
    assert_eq!(object.nested_fields(), None);
    assert_eq!(
        object.resolvers(),
        vec![Field {
            name: "position".to_string(),
            ty: TypeRef { name: "Position".to_string(), non_null: true },
            arguments: vec![InputValue {
                name: "id".to_string(),
                ty: TypeRef { name: "ID".to_string(), non_null: true },
            }],
            resolver: Resolver::StorageById,
        }]
    );
}

fn stored_component(id: &str) -> Component {
    let created = chrono::DateTime::parse_from_rfc3339("2024-01-01T00:00:00+00:00").unwrap();
    Component {
        id: id.to_string(),
        name: "Position".to_string(),
        address: "0x0a".to_string(),
        class_hash: "0x0b".to_string(),
        transaction_hash: "0x0c".to_string(),
        storage_definition: "x:Felt,y:Felt".to_string(),
        created_at: Timestamp::from_timestamp(created.timestamp(), 0).unwrap(),
    }
}

#[test]
fn component_with_storage_end_to_end() {
    let component =
        component_lookup("\"0x1\"").resolve(Ok(vec![stored_component("0x1")])).unwrap().unwrap();
    let lookup = storage_lookup(&component).unwrap();
    assert_eq!(lookup.query, "SELECT * FROM Position WHERE component_id = ?");
    assert_eq!(lookup.id, "0x1");
    let rows = vec![row(&[
        ("y", text("0x20")),
        ("id", ColumnValue::Integer(4)),
        ("x", text("0x10")),
        ("component_id", text("0x1")),
    ])];
    let storage = lookup.resolve(Ok(rows)).unwrap().unwrap();
    assert_eq!(storage.typename, "Position");
    assert_eq!(
        entries(&storage.values),
        vec![
            ("x".to_string(), ScalarValue::String("0x10".to_string())),
            ("y".to_string(), ScalarValue::String("0x20".to_string())),
        ]
    );
    let mapping = lookup.fields.to_vec();
    assert!(mapping.iter().all(|(_, ty)| ty == "Felt"));
}

#[test]
fn absent_component_end_to_end() {
    let lookup = component_lookup("0x2");
    assert_eq!(lookup.id, "0x2");
    assert_eq!(lookup.resolve(Ok(vec![stored_component("0x1")])), Ok(None));
    assert_eq!(lookup.resolve(Ok(Vec::new())), Ok(None));
}

#[test]
fn created_at_end_to_end() {
    let values = value_mapping(stored_component("0x1"));
    assert_eq!(
        values.get("createdAt"),
        Some(&ScalarValue::String("2024-01-01T00:00:00Z".to_string()))
    );
}
