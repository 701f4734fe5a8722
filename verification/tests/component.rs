use dojo_torii::component::{
    component_by_id, component_lookup, components, storage_lookup, value_mapping, Component,
    ComponentObject, ResolveError,
};
use dojo_torii::definition::ParseErrorKind;
use dojo_torii::storage::{ColumnValue, Row, StorageErrorKind, StoreError};
use dojo_torii::object::{Field, InputValue, ObjectTrait, Resolver, TypeRef, Union};
use dojo_torii::timestamp::Timestamp;
use dojo_torii::value::{ExtractErrorKind, ScalarValue, ValueMapping};

fn at(text: &str) -> Timestamp {
    let parsed = chrono::DateTime::parse_from_rfc3339(text).unwrap();
    Timestamp::from_timestamp(parsed.timestamp(), parsed.timestamp_subsec_nanos()).unwrap()
}

fn component(id: &str, name: &str, definition: &str) -> Component {
    Component {
        id: id.to_string(),
        name: name.to_string(),
        address: "0x0a".to_string(),
        class_hash: "0x0b".to_string(),
        transaction_hash: "0x0c".to_string(),
        storage_definition: definition.to_string(),
        created_at: at("2024-01-01T00:00:00+00:00"),
    }
}

fn entries(values: &ValueMapping) -> Vec<(String, ScalarValue)> {
    let mut out = Vec::new();
    let mut i = 0;
    while let Some((name, value)) = values.get_index(i) {
        out.push((name.clone(), value.clone()));
        i += 1;
    }
    out
}

fn text(s: &str) -> ScalarValue {
    ScalarValue::String(s.to_string())
}

#[test]
fn created_at_is_written_in_utc_with_z() {
    let stamp = at("2024-01-01T00:00:00+00:00");
    assert_eq!(stamp.secs(), 1_704_067_200);
    assert_eq!(stamp.nanos(), 0);
    assert_eq!(stamp.to_rfc3339(), "2024-01-01T00:00:00Z");
}

#[test]
fn created_at_drops_fractions_and_offsets() {
    assert_eq!(at("2024-03-05T10:20:30.987654321+02:00").to_rfc3339(), "2024-03-05T08:20:30Z");
    assert_eq!(Timestamp::from_timestamp(0, 999_999_999).unwrap().to_rfc3339(), "1970-01-01T00:00:00Z");
    assert_eq!(Timestamp::from_timestamp(-1, 0).unwrap().to_rfc3339(), "1969-12-31T23:59:59Z");
}

#[test]
fn unrepresentable_points_in_time_are_refused() {
    assert_eq!(Timestamp::from_timestamp(i64::MAX, 0), None);
    assert_eq!(Timestamp::from_timestamp(i64::MIN, 0), None);
    assert_eq!(Timestamp::from_timestamp(0, 2_000_000_000), None);
    assert_eq!(Timestamp::from_timestamp(0, 1_000_000_000), None);
    assert!(Timestamp::from_timestamp(59, 1_000_000_000).is_some());
}

#[test]
fn value_table_of_a_component() {
    let values = value_mapping(component("0x1", "Position", "x:Felt,y:Felt"));
    assert_eq!(
        entries(&values),
        vec![
            ("id".to_string(), text("0x1")),
            ("name".to_string(), text("Position")),
            ("address".to_string(), text("0x0a")),
            ("classHash".to_string(), text("0x0b")),
            ("transactionHash".to_string(), text("0x0c")),
            ("storageDefinition".to_string(), text("x:Felt,y:Felt")),
            ("createdAt".to_string(), text("2024-01-01T00:00:00Z")),
        ]
    );
}

#[test]
fn component_with_no_matching_row_is_absent() {
    assert_eq!(component_by_id(Vec::new(), "0x2"), None);
    let rows = vec![component("0x1", "Position", "x:Felt,y:Felt")];
    assert_eq!(component_by_id(rows, "0x2"), None);
}

#[test]
fn component_with_matching_row_is_complete() {
    let rows = vec![
        component("0x1", "Position", "x:Felt,y:Felt"),
        component("0x2", "Moves", "remaining:Felt"),
    ];
    let values = component_by_id(rows, "0x2").unwrap();
    assert_eq!(values, value_mapping(component("0x2", "Moves", "remaining:Felt")));
    assert_eq!(values.len(), 7);
    assert_eq!(values.get("name"), Some(&text("Moves")));
}

#[test]
fn first_row_with_the_identity_is_taken() {
    let rows = vec![
        component("0x1", "Position", "x:Felt"),
        component("0x1", "Moves", "remaining:Felt"),
    ];
    let values = component_by_id(rows, "0x1").unwrap();
    assert_eq!(values.get("name"), Some(&text("Position")));
}

#[test]
fn all_components() {
    let rows = vec![
        component("0x1", "Position", "x:Felt,y:Felt"),
        component("0x2", "Moves", "remaining:Felt"),
    ];
    let all = components(rows);
    assert_eq!(all.len(), 2);
    assert_eq!(all[0], value_mapping(component("0x1", "Position", "x:Felt,y:Felt")));
    assert_eq!(all[1], value_mapping(component("0x2", "Moves", "remaining:Felt")));
    assert!(components(Vec::new()).is_empty());
}

#[test]
fn lookup_strips_quotes_from_the_argument() {
    let quoted = component_lookup("\"abc\"");
    let bare = component_lookup("abc");
    assert_eq!(quoted, bare);
    assert_eq!(quoted.id, "abc");
    assert_eq!(quoted.query, "SELECT * FROM components WHERE id = $1");
}

#[test]
fn quoted_and_bare_argument_find_the_same_component() {
    let rows = || vec![component("0x1", "Position", "x:Felt,y:Felt")];
    let quoted = component_lookup("\"0x1\"").resolve(Ok(rows())).unwrap();
    let bare = component_lookup("0x1").resolve(Ok(rows())).unwrap();
    assert!(quoted.is_some());
    assert_eq!(quoted, bare);
    assert_eq!(component_lookup("\"0x2\"").resolve(Ok(rows())), Ok(None));
}

#[test]
fn storage_lookup_of_a_component() {
    let values = value_mapping(component("0x1", "Position", "x:Felt,y:Felt"));
    let lookup = storage_lookup(&values).unwrap();
    assert_eq!(lookup.id, "0x1");
    assert_eq!(lookup.typename, "Position");
    assert_eq!(lookup.query, "SELECT * FROM Position WHERE component_id = ?");
    assert_eq!(
        lookup.fields.to_vec(),
        vec![
            ("x".to_string(), "Felt".to_string()),
            ("y".to_string(), "Felt".to_string()),
        ]
    );
}

#[test]
fn storage_lookup_surfaces_a_malformed_layout() {
    let values = value_mapping(component("0x1", "Position", "x:Felt,x:Felt"));
    match storage_lookup(&values) {
        Err(ResolveError::Parse(e)) => {
            assert_eq!(e.kind, ParseErrorKind::DuplicateField);
            assert_eq!(e.field, 1);
            assert_eq!(e.owner, "Position");
        }
        other => panic!("unexpected {:?}", other),
    }
    let values = value_mapping(component("0x1", "Position", ""));
    match storage_lookup(&values) {
        Err(ResolveError::Parse(e)) => assert_eq!(e.kind, ParseErrorKind::EmptyDefinition),
        other => panic!("unexpected {:?}", other),
    }
}

#[test]
fn storage_lookup_surfaces_missing_and_mistyped_fields() {
    let mut values = ValueMapping::new();
    match storage_lookup(&values) {
        Err(ResolveError::Extract(e)) => {
            assert_eq!((e.kind, e.field.as_str()), (ExtractErrorKind::FieldMissing, "id"));
        }
        other => panic!("unexpected {:?}", other),
    }
    values.insert("id".to_string(), text("0x1"));
    values.insert("name".to_string(), text("Position"));
    match storage_lookup(&values) {
        Err(ResolveError::Extract(e)) => {
            assert_eq!(
                (e.kind, e.field.as_str()),
                (ExtractErrorKind::FieldMissing, "storageDefinition")
            );
        }
        other => panic!("unexpected {:?}", other),
    }
    values.insert("storageDefinition".to_string(), text("x:Felt"));
    values.insert("name".to_string(), ScalarValue::Number(3));
    match storage_lookup(&values) {
        Err(ResolveError::Extract(e)) => {
            assert_eq!((e.kind, e.field.as_str()), (ExtractErrorKind::TypeMismatch, "name"));
        }
        other => panic!("unexpected {:?}", other),
    }
}

#[test]
fn component_object_describes_itself() {
    let object = ComponentObject::new(vec!["Position".to_string(), "Moves".to_string()]);
    assert_eq!(object.name(), "component");
    assert_eq!(object.typename(), "Component");
    assert_eq!(
        object.field_type_mapping().to_vec(),
        vec![
            ("id".to_string(), "ID".to_string()),
            ("name".to_string(), "String".to_string()),
            ("address".to_string(), "Address".to_string()),
            ("classHash".to_string(), "Felt".to_string()),
            ("transactionHash".to_string(), "Felt".to_string()),
            ("storageDefinition".to_string(), "String".to_string()),
            ("createdAt".to_string(), "DateTime".to_string()),
        ]
    );
    assert_eq!(object.storage_names, vec!["Position".to_string(), "Moves".to_string()]);
}

#[test]
fn component_object_brings_the_storage_union() {
    let object = ComponentObject::new(vec!["Position".to_string(), "Moves".to_string()]);
    assert_eq!(
        object.unions(),
        Some(vec![Union {
            name: "Storage".to_string(),
            possible_types: vec!["Position".to_string(), "Moves".to_string()],
        }])
    );
    let none = ComponentObject::new(Vec::new());
    assert_eq!(
        none.unions(),
        Some(vec![Union { name: "Storage".to_string(), possible_types: Vec::new() }])
    );
}

#[test]
fn component_object_fields_and_entry_points() {
    let object = ComponentObject::new(Vec::new());
    assert_eq!(
        object.nested_fields(),
        Some(vec![Field {
            name: "storage".to_string(),
            ty: TypeRef { name: "Storage".to_string(), non_null: false },
            arguments: Vec::new(),
            resolver: Resolver::ComponentStorage,
        }])
    );
    assert_eq!(
        object.resolvers(),
        vec![Field {
            name: "component".to_string(),
            ty: TypeRef { name: "Component".to_string(), non_null: true },
            arguments: vec![InputValue {
                name: "id".to_string(),
                ty: TypeRef { name: "ID".to_string(), non_null: true },
            }],
            resolver: Resolver::ComponentById,
        }]
    );
}

#[test]
fn type_references_as_text() {
    assert_eq!(TypeRef::named("Storage").to_text(), "Storage");
    assert_eq!(TypeRef::named_nn("ID").to_text(), "ID!");
    assert_eq!(TypeRef::named("Storage"), TypeRef { name: "Storage".to_string(), non_null: false });
    assert_eq!(TypeRef::named_nn("ID"), TypeRef { name: "ID".to_string(), non_null: true });
}

#[test]
fn store_failure_is_handed_on_as_it_is() {
    let failure = || StoreError { message: "pool timed out".to_string() };
    assert_eq!(component_lookup("0x1").resolve(Err(failure())), Err(failure()));
    let values = value_mapping(component("0x1", "Position", "x:Felt"));
    let lookup = storage_lookup(&values).unwrap();
    assert_eq!(lookup.resolve(Err(failure())), Err(ResolveError::Store(failure())));
}

#[test]
fn storage_row_that_does_not_fit_the_layout() {
    let values = value_mapping(component("0x1", "Position", "x:Felt,y:Felt"));
    let lookup = storage_lookup(&values).unwrap();
    let rows = vec![Row {
        columns: vec![
            ("component_id".to_string(), ColumnValue::Text("0x1".to_string())),
            ("x".to_string(), ColumnValue::Text("1".to_string())),
            ("y".to_string(), ColumnValue::Integer(2)),
        ],
    }];
    match lookup.resolve(Ok(rows)) {
        Err(ResolveError::Storage(e)) => {
            assert_eq!((e.kind, e.field.as_str()), (StorageErrorKind::TypeMismatch, "y"));
        }
        other => panic!("unexpected {:?}", other),
    }
}
