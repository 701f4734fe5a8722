use dojo_torii::definition::{type_mapping_from_definition, ParseError, ParseErrorKind};
use dojo_torii::type_mapping::TypeMapping;

fn pairs(mapping: &TypeMapping) -> Vec<(String, String)> {
    mapping.to_vec()
}

fn fault(definition: &str) -> ParseError {
    type_mapping_from_definition(definition, "Position").unwrap_err()
}

#[test]
fn reads_fields_in_declaration_order() {
    let mapping = type_mapping_from_definition("x:Felt,y:Felt", "Position").unwrap();
    assert_eq!(
        pairs(&mapping),
        vec![
            ("x".to_string(), "Felt".to_string()),
            ("y".to_string(), "Felt".to_string()),
        ]
    );
}

#[test]
fn order_is_the_description_s_not_the_alphabet_s() {
    let mapping =
        type_mapping_from_definition("zeta:Address,alpha:ID,mid:DateTime,last:String", "Mixed")
            .unwrap();
    assert_eq!(
        pairs(&mapping),
        vec![
            ("zeta".to_string(), "Address".to_string()),
            ("alpha".to_string(), "ID".to_string()),
            ("mid".to_string(), "DateTime".to_string()),
            ("last".to_string(), "String".to_string()),
        ]
    );
    assert_eq!(mapping.len(), 4);
    assert_eq!(mapping.get("mid").map(|t| t.as_str()), Some("DateTime"));
    assert!(mapping.contains_key("zeta"));
    assert!(!mapping.contains_key("Zeta"));
}

#[test]
fn reading_twice_gives_equal_tables() {
    let first = type_mapping_from_definition("x:Felt,y:Felt,owner:Address", "Position").unwrap();
    let second = type_mapping_from_definition("x:Felt,y:Felt,owner:Address", "Position").unwrap();
    assert_eq!(pairs(&first), pairs(&second));
    assert_eq!(first, second);
}

#[test]
fn failing_twice_gives_equal_errors() {
    assert_eq!(fault("x:Felt,x:Felt"), fault("x:Felt,x:Felt"));
}

#[test]
fn single_field() {
    let mapping = type_mapping_from_definition("health:Felt", "Health").unwrap();
    assert_eq!(pairs(&mapping), vec![("health".to_string(), "Felt".to_string())]);
}

#[test]
fn field_names_may_hold_any_other_character() {
    let mapping = type_mapping_from_definition("a b:ID,\u{e9}t\u{e9}:String", "Odd").unwrap();
    assert_eq!(
        pairs(&mapping),
        vec![
            ("a b".to_string(), "ID".to_string()),
            ("\u{e9}t\u{e9}".to_string(), "String".to_string()),
        ]
    );
}

#[test]
fn empty_description_is_rejected() {
    let e = fault("");
    assert_eq!(e.kind, ParseErrorKind::EmptyDefinition);
    assert_eq!(e.field, 0);
    assert_eq!(e.owner, "Position");
}

#[test]
fn duplicate_field_name_is_rejected() {
    let e = fault("x:Felt,y:Felt,x:Address");
    assert_eq!(e.kind, ParseErrorKind::DuplicateField);
    assert_eq!(e.field, 2);
    assert_eq!(e.owner, "Position");
}

#[test]
fn unknown_type_is_rejected() {
    let e = fault("x:Felt,y:Quaternion");
    assert_eq!(e.kind, ParseErrorKind::UnknownType);
    assert_eq!(e.field, 1);
}

#[test]
fn type_names_are_case_sensitive() {
    assert_eq!(fault("x:felt").kind, ParseErrorKind::UnknownType);
    assert_eq!(fault("x:Id").kind, ParseErrorKind::UnknownType);
    assert_eq!(fault("x: Felt").kind, ParseErrorKind::UnknownType);
    assert_eq!(fault("x:").kind, ParseErrorKind::UnknownType);
}

#[test]
fn field_without_separator_is_rejected() {
    let e = fault("x:Felt,y");
    assert_eq!(e.kind, ParseErrorKind::MissingSeparator);
    assert_eq!(e.field, 1);
    assert_eq!(fault("x").kind, ParseErrorKind::MissingSeparator);
}

#[test]
fn trailing_and_doubled_commas_are_rejected() {
    let e = fault("x:Felt,");
    assert_eq!((e.kind, e.field), (ParseErrorKind::MissingSeparator, 1));
    let e = fault("x:Felt,,y:Felt");
    assert_eq!((e.kind, e.field), (ParseErrorKind::MissingSeparator, 1));
    let e = fault(",x:Felt");
    assert_eq!((e.kind, e.field), (ParseErrorKind::MissingSeparator, 0));
}

#[test]
fn field_without_name_is_rejected() {
    let e = fault("x:Felt,:Felt");
    assert_eq!(e.kind, ParseErrorKind::EmptyFieldName);
    assert_eq!(e.field, 1);
}

#[test]
fn second_colon_belongs_to_the_type() {
    assert_eq!(fault("x:Felt:Felt").kind, ParseErrorKind::UnknownType);
}

#[test]
fn first_fault_from_the_left_decides() {
    let e = fault("x:Felt,y:Nope,x:Felt,z");
    assert_eq!((e.kind, e.field), (ParseErrorKind::UnknownType, 1));
    let e = fault("x:Felt,x:Nope");
    assert_eq!((e.kind, e.field), (ParseErrorKind::UnknownType, 1));
}

#[test]
fn owner_is_carried_into_the_error() {
    let e = type_mapping_from_definition("", "Moves").unwrap_err();
    assert_eq!(e.owner, "Moves");
    let e = type_mapping_from_definition("a:b", "").unwrap_err();
    assert_eq!(e.owner, "");
}

#[test]
fn table_insert_keeps_first_position() {
    let mut m = TypeMapping::new();
    assert_eq!(m.insert("x".to_string(), "Felt".to_string()), None);
    assert_eq!(m.insert("y".to_string(), "Address".to_string()), None);
    assert_eq!(m.insert("x".to_string(), "String".to_string()), Some("Felt".to_string()));
    assert_eq!(m.len(), 2);
    let (n, t) = m.get_index(0).unwrap();
    assert_eq!((n.as_str(), t.as_str()), ("x", "String"));
    assert_eq!(m.get("y").map(|s| s.as_str()), Some("Address"));
    assert!(m.get("z").is_none());
    assert!(m.get_index(2).is_none());
}

#[test]
fn empty_table() {
    let m = TypeMapping::new();
    assert_eq!(m.len(), 0);
    assert!(m.get_index(0).is_none());
    assert!(m.get("x").is_none());
    assert!(m.to_vec().is_empty());
}

#[test]
fn faults_in_words() {
    assert_eq!(ParseErrorKind::EmptyDefinition.message(), "empty storage definition");
    assert_eq!(
        ParseErrorKind::MissingSeparator.message(),
        "field without `:` between name and type"
    );
    assert_eq!(ParseErrorKind::EmptyFieldName.message(), "field without a name");
    assert_eq!(ParseErrorKind::UnknownType.message(), "unknown type");
    assert_eq!(ParseErrorKind::DuplicateField.message(), "duplicate field name");
}
