use dojo_torii::scalar::ScalarType;
use dojo_torii::text::{chars_of, format_name, remove_quotes, same_text};

#[test]
fn scalar_names() {
    assert_eq!(ScalarType::Id.name(), "ID");
    assert_eq!(ScalarType::String.name(), "String");
    assert_eq!(ScalarType::Address.name(), "Address");
    assert_eq!(ScalarType::Felt.name(), "Felt");
    assert_eq!(ScalarType::DateTime.name(), "DateTime");
}

#[test]
fn scalar_lookup_by_name() {
    for kind in ScalarType::types() {
        assert_eq!(ScalarType::from_name(kind.name()), Some(kind));
    }
    assert_eq!(ScalarType::from_name("FieldElement"), None);
    assert_eq!(ScalarType::from_name("id"), None);
    assert_eq!(ScalarType::from_name(""), None);
    assert_eq!(ScalarType::from_name("Int"), None);
}

#[test]
fn scalar_registry_is_closed() {
    assert_eq!(
        ScalarType::types(),
        vec![
            ScalarType::Id,
            ScalarType::String,
            ScalarType::Address,
            ScalarType::Felt,
            ScalarType::DateTime,
        ]
    );
    assert!(ScalarType::Id.is_builtin());
    assert!(ScalarType::String.is_builtin());
    assert!(!ScalarType::Address.is_builtin());
    assert!(!ScalarType::Felt.is_builtin());
    assert!(!ScalarType::DateTime.is_builtin());
}

#[test]
fn quoted_and_bare_identifier_give_one_key() {
    assert_eq!(remove_quotes("\"abc\""), "abc");
    assert_eq!(remove_quotes("abc"), "abc");
    assert_eq!(remove_quotes("\"abc\""), remove_quotes("abc"));
    assert_eq!(remove_quotes("'0x1'"), remove_quotes("0x1"));
}

#[test]
fn every_quote_character_is_removed() {
    assert_eq!(remove_quotes(""), "");
    assert_eq!(remove_quotes("\""), "");
    assert_eq!(remove_quotes("\"\"'"), "");
    assert_eq!(remove_quotes("a\"b'c"), "abc");
    assert_eq!(remove_quotes("\"\u{e9}t\u{e9}\""), "\u{e9}t\u{e9}");
    assert_eq!(remove_quotes("no quotes at all"), "no quotes at all");
}

#[test]
fn storage_names() {
    assert_eq!(format_name("Position"), ("position".to_string(), "Position".to_string()));
    assert_eq!(format_name("MOVES"), ("moves".to_string(), "MOVES".to_string()));
    assert_eq!(format_name(""), (String::new(), String::new()));
}

#[test]
fn text_helpers() {
    assert!(same_text("Felt", "Felt"));
    assert!(!same_text("Felt", "felt"));
    assert_eq!(chars_of("a\u{e9}b"), vec!['a', '\u{e9}', 'b']);
    assert!(chars_of("").is_empty());
}
