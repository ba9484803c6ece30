use quickfix_native::converter::{can_convert, convert_spec};
use quickfix_native::fix_spec::{
    Component, ComponentSpec, Field, FieldAllowedValue, FieldSpec, FieldType, FieldValue,
    FixSpec, Group, Message, MessageCategory,
};
use quickfix_native::generator::{format_field_id, generate_code};
use quickfix_native::code_spec::SubComponent;

fn field(name: &str, required: bool) -> FieldValue {
    FieldValue::Field(Field { name: name.to_string(), required })
}

fn spec() -> FixSpec {
    FixSpec {
        version: (4, 4, 0),
        is_fixt: false,
        headers: vec![field("MsgType", true)],
        trailers: vec![field("CheckSum", true)],
        messages: vec![Message {
            name: "Heartbeat".to_string(),
            msg_type: "0".to_string(),
            category: MessageCategory::Admin,
            values: vec![
                field("TestReqID", false),
                FieldValue::Component(Component { name: "Parties".to_string(), required: false }),
            ],
        }],
        component_specs: vec![ComponentSpec {
            name: "Parties".to_string(),
            values: vec![FieldValue::Group(Group {
                name: "NoPartyIDs".to_string(),
                required: false,
                values: vec![field("PartyID", false), field("TestReqID", false)],
            })],
        }],
        field_specs: vec![
            FieldSpec { number: 35, name: "MsgType".to_string(), field_type: FieldType::String, values: vec![] },
            FieldSpec { number: 10, name: "CheckSum".to_string(), field_type: FieldType::String, values: vec![] },
            FieldSpec { number: 112, name: "TestReqID".to_string(), field_type: FieldType::String, values: vec![] },
            FieldSpec { number: 453, name: "NoPartyIDs".to_string(), field_type: FieldType::NumberInGroup, values: vec![] },
            FieldSpec { number: 448, name: "PartyID".to_string(), field_type: FieldType::String, values: vec![] },
            FieldSpec {
                number: 54,
                name: "Side".to_string(),
                field_type: FieldType::Char,
                values: vec![FieldAllowedValue { value: "1".to_string(), description: "BUY".to_string() }],
            },
        ],
    }
}

#[test]
fn field_ids_are_constant_case_paths() {
    assert_eq!(format_field_id("MsgType"), "crate::field_id::MSG_TYPE");
    assert_eq!(format_field_id("NoPartyIDs"), "crate::field_id::NO_PARTY_I_DS");
}

#[test]
fn conversion_expands_components() {
    let src = spec();
    assert!(can_convert(&src));
    let code_spec = convert_spec(&src);
    assert_eq!(code_spec.field_specs.len(), 6);
    assert_eq!(code_spec.headers.len(), 1);
    assert_eq!(code_spec.messages.len(), 1);
    let m = &code_spec.messages[0];
    assert_eq!(m.name, "Heartbeat");
    assert_eq!(m.msg_type, "0");
    assert_eq!(m.components.len(), 2);
    match &m.components[1] {
        SubComponent::Group(g) => {
            assert_eq!(g.name, "NoPartyIDs");
            assert_eq!(g.components.len(), 2);
        }
        _ => panic!("expected a group"),
    }
}

#[test]
fn missing_components_do_not_convert() {
    let mut src = spec();
    src.messages[0]
        .values
        .push(FieldValue::Component(Component { name: "Nowhere".to_string(), required: true }));
    assert!(!can_convert(&src));
}

#[test]
fn cyclic_components_do_not_convert() {
    let mut src = spec();
    src.component_specs[0]
        .values
        .push(FieldValue::Component(Component { name: "Parties".to_string(), required: true }));
    assert!(!can_convert(&src));
}

#[test]
fn generated_code_holds_the_definitions() {
    let code_spec = convert_spec(&spec());
    let code = generate_code(&code_spec, "FIX.4.4");
    assert!(code.contains("pub const FIX_BEGIN_STRING: &str = \"FIX.4.4\";"));
    assert!(code.contains("pub mod field_id {\n"));
    assert!(code.contains("pub const MSG_TYPE: i32 = 35;\n"));
    assert!(code.contains("pub const TEST_REQ_ID: i32 = 112;\n"));
    assert!(code.contains("} // field_id\n\n"));
    assert!(code.contains("pub mod field_types {\n"));
    assert!(code.contains("pub enum Side {"));
    assert!(code.contains("pub struct Heartbeat {"));
    assert!(code.contains("pub struct NoPartyIDs {"));
    assert!(code.contains("pub enum Messages {"));
}

#[test]
fn converted_parts_keep_each_name_once() {
    let mut src = spec();
    src.component_specs.push(ComponentSpec {
        name: "Again".to_string(),
        values: vec![field("TestReqID", true), field("MsgType", false)],
    });
    src.messages[0]
        .values
        .push(FieldValue::Component(Component { name: "Again".to_string(), required: true }));
    assert!(can_convert(&src));
    let code_spec = convert_spec(&src);
    let names: Vec<&str> = code_spec.messages[0].components.iter().map(|c| c.name()).collect();
    assert_eq!(names, vec!["TestReqID", "NoPartyIDs", "MsgType"]);
    assert!(!code_spec.messages[0].components[0].is_required());
}

#[test]
fn empty_groups_cannot_be_generated() {
    let mut src = spec();
    src.component_specs[0].values = vec![FieldValue::Group(Group {
        name: "NoPartyIDs".to_string(),
        required: false,
        values: vec![],
    })];
    let code_spec = convert_spec(&src);
    assert!(!quickfix_native::generator::can_generate(&code_spec));
    assert!(quickfix_native::generator::can_generate(&convert_spec(&spec())));
}
