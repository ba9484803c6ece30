use std::fmt::Debug;

use quickfix_native::fix_spec::{
    Component, ComponentSpec, Field, FieldAllowedValue, FieldSpec, FieldType, FieldValue,
    FixSpec, FixSpecError, Group, Message, MessageCategory,
};

fn check<T: Debug>(obj: T, expected: &str) {
    assert_eq!(format!("{obj:?}"), expected);
}

#[test]
fn test_error() {
    assert_eq!(
        format!("{:?}", FixSpecError::InvalidDocument("bad header").clone()),
        "InvalidDocument(\"bad header\")"
    );
    assert_eq!(
        FixSpecError::InvalidDocument("bad header").clone().message(),
        "invalid document: bad header"
    );
    assert_ne!(
        FixSpecError::InvalidDocument("Bad header").clone(),
        FixSpecError::Xml("hello".to_string())
    );
}

#[test]
fn test_debug() {
    check(
        Component {
            name: "foo".to_string(),
            required: false,
        }
        .clone(),
        "Component { name: \"foo\", required: false }",
    );
    check(
        ComponentSpec {
            name: "bar".to_string(),
            values: vec![],
        }
        .clone(),
        "ComponentSpec { name: \"bar\", values: [] }",
    );
    check(MessageCategory::Admin, "Admin");
    check(FieldType::SequenceNumber, "SequenceNumber");
    check(
        FieldAllowedValue {
            value: "hello".to_string(),
            description: "Some value".to_string(),
        }
        .clone(),
        "FieldAllowedValue { value: \"hello\", description: \"Some value\" }",
    );
    // The value type is held in the field `field_type`, which Debug names.
    check(
        FieldSpec {
            number: 42,
            name: "The Ultimate Question of Life".to_string(),
            field_type: FieldType::Amount,
            values: vec![],
        }.clone(),
        "FieldSpec { number: 42, name: \"The Ultimate Question of Life\", field_type: Amount, values: [] }",
    );
    check(
        Field {
            name: "X".to_string(),
            required: false,
        }
        .clone(),
        "Field { name: \"X\", required: false }",
    );
    check(
        Group {
            name: "X".to_string(),
            required: true,
            values: vec![],
        }
        .clone(),
        "Group { name: \"X\", required: true, values: [] }",
    );
    check(
        FieldValue::Field(Field {
            name: "X".to_string(),
            required: false,
        })
        .clone(),
        "Field(Field { name: \"X\", required: false })",
    );
    check(
        Message {
            name: "foo".to_string(),
            category: MessageCategory::App,
            msg_type: "bar".to_string(),
            values: vec![],
        }
        .clone(),
        "Message { name: \"foo\", msg_type: \"bar\", category: App, values: [] }",
    );
    check(
        FixSpec {
            version: (4, 8, 3),
            is_fixt: false,
            headers: vec![],
            messages: vec![],
            trailers: vec![],
            component_specs: vec![],
            field_specs: vec![],
        }.clone(),
        "FixSpec { version: (4, 8, 3), is_fixt: false, headers: [], messages: [], trailers: [], component_specs: [], field_specs: [] }",
    );
}

#[test]
fn test_invalid_field_type() {
    assert_eq!(
        "foo".parse::<FieldType>().unwrap_err(),
        FixSpecError::InvalidContent("unknown field type: foo".to_string())
    );
}

#[test]
fn test_invalid_message_category() {
    assert_eq!(
        "foo".parse::<MessageCategory>().unwrap_err(),
        FixSpecError::InvalidContent("invalid msgcat: foo".to_string())
    );
}

#[test]
fn test_new_fixt() {
    let spec = FixSpec::new_fixt();
    assert_eq!(spec.version, (1, 1, 0));
    assert!(spec.is_fixt);
}

#[test]
fn field_type_names_read_back() {
    for name in ["CHAR", "INT", "STRING", "UTCTIMESTAMP", "NUMINGROUP", "XMLDATA", "LANGUAGE"] {
        let t: FieldType = name.parse().unwrap();
        assert_eq!(t.as_static_str(), name);
    }
    assert_eq!("MULTIPLEVALUESTRING".parse::<FieldType>().unwrap(), FieldType::MultipleValueString);
}

#[test]
fn message_category_names_read_back() {
    assert_eq!("admin".parse::<MessageCategory>().unwrap().as_static_str(), "admin");
    assert_eq!("app".parse::<MessageCategory>().unwrap().as_static_str(), "app");
    assert!("App".parse::<MessageCategory>().is_err());
}

#[test]
fn error_messages() {
    assert_eq!(FixSpecError::InvalidAttribute("name".to_string()).message(), "invalid attribute: name");
    assert_eq!(FixSpecError::InvalidContent("x".to_string()).message(), "invalid content: x");
    assert_eq!(FixSpecError::Xml("boom".to_string()).message(), "xml error: boom");
}
