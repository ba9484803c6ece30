use quickfix_native::data_dictionary::DataDictionary;
use quickfix_native::errors::NativeError;
use quickfix_native::field_map::{FieldMap, Group as MapGroup};
use quickfix_native::fix_spec::{
    Component, ComponentSpec, Field, FieldAllowedValue, FieldSpec, FieldType, FieldValue,
    FixSpec, Group, Message, MessageCategory,
};

fn field_spec(number: u32, name: &str, field_type: FieldType) -> FieldSpec {
    FieldSpec { number, name: name.to_string(), field_type, values: vec![] }
}

fn field(name: &str, required: bool) -> FieldValue {
    FieldValue::Field(Field { name: name.to_string(), required })
}

fn sample_spec() -> FixSpec {
    let mut side = field_spec(54, "Side", FieldType::Char);
    side.values = vec![
        FieldAllowedValue { value: "1".to_string(), description: "BUY".to_string() },
        FieldAllowedValue { value: "2".to_string(), description: "SELL".to_string() },
    ];
    let mut inst = field_spec(18, "ExecInst", FieldType::MultipleValueString);
    inst.values = vec![
        FieldAllowedValue { value: "A".to_string(), description: "A".to_string() },
        FieldAllowedValue { value: "B".to_string(), description: "B".to_string() },
    ];
    FixSpec {
        version: (4, 4, 0),
        is_fixt: false,
        headers: vec![field("BeginString", true), field("MsgType", true)],
        trailers: vec![field("CheckSum", true)],
        messages: vec![Message {
            name: "NewOrderSingle".to_string(),
            msg_type: "D".to_string(),
            category: MessageCategory::App,
            values: vec![
                field("ClOrdID", true),
                field("Side", false),
                field("ExecInst", false),
                FieldValue::Group(Group {
                    name: "NoPartyIDs".to_string(),
                    required: true,
                    values: vec![field("PartyID", true), field("PartyRole", false)],
                }),
                FieldValue::Component(Component { name: "Instrument".to_string(), required: true }),
            ],
        }],
        component_specs: vec![ComponentSpec {
            name: "Instrument".to_string(),
            values: vec![field("Symbol", true)],
        }],
        field_specs: vec![
            field_spec(8, "BeginString", FieldType::String),
            field_spec(35, "MsgType", FieldType::String),
            field_spec(10, "CheckSum", FieldType::String),
            field_spec(11, "ClOrdID", FieldType::String),
            side,
            inst,
            field_spec(453, "NoPartyIDs", FieldType::NumberInGroup),
            field_spec(448, "PartyID", FieldType::String),
            field_spec(452, "PartyRole", FieldType::Int),
            field_spec(55, "Symbol", FieldType::String),
            field_spec(95, "RawDataLength", FieldType::Length),
            field_spec(96, "RawData", FieldType::Data),
        ],
    }
}

#[test]
fn dictionary_from_spec_knows_fields_and_messages() {
    let spec = sample_spec();
    let dd = DataDictionary::from_fix_spec(spec).unwrap();
    assert_eq!(dd.get_version().unwrap(), "FIX.4.4");
    assert!(dd.is_field(54));
    assert!(!dd.is_field(9999));
    assert_eq!(dd.get_field_name(54).unwrap(), "Side");
    assert_eq!(dd.get_field_tag("Side"), Some(54));
    assert_eq!(dd.get_field_type(54), Some(&FieldType::Char));
    assert!(dd.is_data_field(96));
    assert!(!dd.is_data_field(95));
    assert!(dd.is_msg_type("D"));
    assert!(!dd.is_msg_type("8"));
    assert!(dd.is_header_field(35));
    assert!(dd.is_trailer_field(10));
    assert!(!dd.is_header_field(10));
    assert!(dd.is_msg_field("D", 11));
    assert!(dd.is_required_field("D", 11));
    assert!(!dd.is_required_field("D", 54));
    assert!(dd.is_msg_field("D", 55));
    assert!(dd.is_required_field("D", 55));
    assert!(dd.is_msg_field("D", 453));
    assert!(dd.is_group("D", 453));
    let (delim, group_dd) = dd.get_group("D", 453).unwrap();
    assert_eq!(delim, 448);
    assert!(group_dd.is_field(448));
    assert!(group_dd.is_required_field("D", 448));
    assert!(!group_dd.is_required_field("D", 452));
    assert_eq!(dd.get_name_value(35, "NewOrderSingle"), Some("D".to_string()));
    assert_eq!(dd.get_name_value(54, "SELL"), Some("2".to_string()));
}

#[test]
fn field_values_are_checked() {
    let dd = DataDictionary::from_fix_spec(sample_spec()).unwrap();
    assert!(dd.is_field_value(54, "1"));
    assert!(!dd.is_field_value(54, "3"));
    assert!(dd.is_field_value(11, "anything"));
    assert!(dd.is_multiple_value_field(18));
    assert!(dd.is_field_value(18, "A B"));
    assert!(!dd.is_field_value(18, "A C"));
    assert!(dd.check_field_value(54, "2").is_ok());
    assert!(matches!(dd.check_field_value(54, "9"), Err(NativeError::IncorrectTagValue(54))));
    assert!(dd.check_valid_tag_number(54).is_ok());
    assert!(matches!(dd.check_valid_tag_number(7777), Err(NativeError::InvalidTagNumber(7777))));
    assert!(dd.check_has_value(54, "").is_ok());
    assert!(dd.check_is_in_message(11, "D").is_ok());
    assert!(matches!(
        dd.check_is_in_message(10, "D"),
        Err(NativeError::TagNotDefinedforMessage(10))
    ));
}

#[test]
fn group_counts_are_checked() {
    let dd = DataDictionary::from_fix_spec(sample_spec()).unwrap();
    let mut map = FieldMap::new();
    assert!(matches!(dd.check_group_count(453, &map, "D"), Err(NativeError::NoTagValue(453))));
    map.add_group(MapGroup::new(453, 448, None));
    assert!(dd.check_group_count(453, &map, "D").is_ok());
    map.set_string(453, "2");
    assert!(matches!(
        dd.check_group_count(453, &map, "D"),
        Err(NativeError::RepeatingGroupCountMismatch(453))
    ));
    map.set_string(453, "x");
    assert!(matches!(
        dd.check_group_count(453, &map, "D"),
        Err(NativeError::IncorrectDataFormat(453, _))
    ));
    assert!(dd.check_group_count(11, &map, "D").is_ok());
}

#[test]
fn unknown_field_names_are_refused() {
    let mut spec = sample_spec();
    spec.messages[0].values.push(field("Nope", false));
    match DataDictionary::from_fix_spec(spec) {
        Err(NativeError::ConfigError(m)) => assert_eq!(m, "Field Nope not defined in field section"),
        other => panic!("unexpected {:?}", other.map(|_| ())),
    }
}

#[test]
fn unknown_components_are_refused() {
    let mut spec = sample_spec();
    spec.messages[0]
        .values
        .push(FieldValue::Component(Component { name: "Missing".to_string(), required: false }));
    match DataDictionary::from_fix_spec(spec) {
        Err(NativeError::ConfigError(m)) => {
            assert_eq!(m, "Component Missing not found in component specifications")
        }
        other => panic!("unexpected {:?}", other.map(|_| ())),
    }
}

#[test]
fn duplicated_field_names_are_refused() {
    let mut spec = sample_spec();
    spec.field_specs.push(field_spec(9000, "Side", FieldType::Char));
    match DataDictionary::from_fix_spec(spec) {
        Err(NativeError::ConfigError(m)) => assert_eq!(m, "Field name Side defined multiple times"),
        other => panic!("unexpected {:?}", other.map(|_| ())),
    }
}

#[test]
fn self_referencing_components_are_detected() {
    let mut spec = sample_spec();
    spec.component_specs[0]
        .values
        .push(FieldValue::Component(Component { name: "Instrument".to_string(), required: false }));
    match DataDictionary::from_fix_spec(spec) {
        Err(NativeError::ConfigError(m)) => assert_eq!(m, "component references form a cycle"),
        other => panic!("unexpected {:?}", other.map(|_| ())),
    }
}

#[test]
fn errors_met_before_a_cycle_come_first() {
    let mut spec = sample_spec();
    spec.component_specs[0]
        .values
        .push(FieldValue::Component(Component { name: "Instrument".to_string(), required: false }));
    spec.headers.push(field("Nope", true));
    match DataDictionary::from_fix_spec(spec) {
        Err(NativeError::ConfigError(m)) => assert_eq!(m, "Field Nope not defined in field section"),
        other => panic!("unexpected {:?}", other.map(|_| ())),
    }
}

#[test]
fn groups_holding_components_use_the_field_names() {
    let spec = FixSpec {
        version: (4, 4, 0),
        is_fixt: false,
        field_specs: vec![
            field_spec(268, "N", FieldType::String),
            field_spec(269, "T", FieldType::String),
            field_spec(55, "S", FieldType::String),
        ],
        component_specs: vec![ComponentSpec { name: "I".to_string(), values: vec![field("S", true)] }],
        headers: vec![FieldValue::Group(Group {
            name: "N".to_string(),
            required: true,
            values: vec![
                field("T", true),
                FieldValue::Component(Component { name: "I".to_string(), required: true }),
            ],
        })],
        messages: vec![],
        trailers: vec![],
    };
    let dd = DataDictionary::from_fix_spec(spec).unwrap();
    assert!(dd.is_header_field(268));
    assert!(dd.is_group("_header_", 268));
    let (delim, group_dd) = dd.get_group("_header_", 268).unwrap();
    assert_eq!(delim, 269);
    assert!(group_dd.is_field(269));
    assert!(group_dd.is_header_field(55));
    let copy = dd.clone();
    assert!(copy.is_header_field(268));
    let (delim, group_copy) = copy.get_group("_header_", 268).unwrap();
    assert_eq!(delim, 269);
    assert!(group_copy.is_field(269));
    assert!(group_copy.is_header_field(55));
}

#[test]
fn settings_and_manual_additions() {
    let mut dd = DataDictionary::new();
    assert!(dd.get_version().is_none());
    dd.set_version("FIXT.1.1");
    assert_eq!(dd.get_version().unwrap(), "FIXT.1.1");
    dd.preserve_message_fields_order(true);
    dd.check_fields_out_of_order(false);
    dd.check_user_defined_fields(true);
    dd.check_fields_have_values(false);
    dd.allow_unknown_tags(true);
    dd.set_has_version(false);
    dd.add_field(5001);
    dd.add_field_name(5001, "Custom").unwrap();
    assert!(dd.add_field_name(5002, "Custom").is_err());
    dd.add_field_type(5001, FieldType::XmlData);
    assert!(dd.is_data_field(5001));
    dd.add_msg_type("U1");
    dd.add_msg_field("U1", 5001);
    dd.add_required_field("U1", 5001);
    assert!(dd.is_msg_field("U1", 5001));
    assert!(dd.is_required_field("U1", 5001));
    dd.add_header_field(8, true);
    dd.add_trailer_field(10, false);
    assert!(dd.is_header_field(8));
    assert!(dd.is_trailer_field(10));
    dd.add_field_value(5001, "X");
    dd.add_value_name(5001, "X", "Ex");
    assert_eq!(dd.get_name_value(5001, "Ex"), Some("X".to_string()));
    assert!(dd.get_name_value(5001, "Nope").is_none());
}
