use quickfix_native::errors::NativeError;
use quickfix_native::field_map::{Field, FieldMap, Group};
use quickfix_native::message_order::MessageOrder;

#[test]
fn test_field_serialization() {
    let field = Field::new(35, "D".to_string());
    assert_eq!(&field.to_fix_string(), "35=D\x01")
}

#[test]
fn test_field_parsing() {
    let fix_str = "35=D\x01";
    let (field, pos) = Field::parse_from_fix_string(fix_str, 0).unwrap();

    assert_eq!(field.tag, 35);
    assert_eq!(field.value, "D");
    assert_eq!(pos, 5);
}

#[test]
fn test_fieldmap_serialization() {
    let mut field_map = FieldMap::new();

    field_map.set_string(35, "D");
    field_map.set_int(49, 1234);
    field_map.set_string(44, &99.50f64.to_string());

    let fix_str = field_map.to_fix_string();
    assert!(fix_str.contains("35=D\x01"));
    assert!(fix_str.contains("49=1234\x01"));
    assert!(fix_str.contains("44=99.5\x01"));
}

#[test]
fn test_fieldmap_parsing() {
    let fix_string = "35=D\x0149=1234\x0144=99.5\x01";
    let mut fieldmap = FieldMap::new();
    fieldmap.from_fix_string(fix_string).unwrap();
    assert_eq!(fieldmap.get_string(35).unwrap(), "D");
    assert_eq!(fieldmap.get_int(49).unwrap(), 1234);
    assert_eq!(fieldmap.get_string(44).unwrap().parse::<f64>().unwrap(), 99.5);
}

#[test]
fn test_group_handling() {
    let mut fieldmap = FieldMap::new();

    // symbol, MDEntryType delim
    let mut group1 = Group::new(55, 269, None);
    group1.set_string(55, "MSFT");
    group1.set_string(44, &100.0f64.to_string());

    fieldmap.add_group(group1);
    assert_eq!(fieldmap.group_count(55), 1);
    assert_eq!(fieldmap.get_int(55).unwrap(), 1);

    let group = fieldmap.get_group(55, 0).unwrap();
    assert_eq!(group.get_string(55).unwrap(), "MSFT");
}

#[test]
fn test_length_calculation() {
    let mut fieldmap = FieldMap::new();
    fieldmap.set_string(35, "D");
    fieldmap.set_int(49, 1234);

    let expected_length = "35=D\x01".len() + "49=1234\x01".len();
    assert_eq!(fieldmap.calculate_length(), expected_length);
}

#[test]
fn test_checksum_calculation() {
    let mut fieldmap = FieldMap::new();
    fieldmap.set_string(35, "D");

    let expected_checksum: u32 = "35=D\x01".bytes().map(|b| b as u32).sum();
    assert_eq!(fieldmap.calculate_checksum(), expected_checksum);
}

#[test]
fn field_parsing_starts_at_position() {
    let fix_str = "8=FIX.4.4\x0135=D\x01";
    let (field, pos) = Field::parse_from_fix_string(fix_str, 10).unwrap();
    assert_eq!(field.tag, 35);
    assert_eq!(field.value, "D");
    assert_eq!(pos, 15);
}

#[test]
fn field_parsing_errors() {
    match Field::parse_from_fix_string("35D\x01", 0) {
        Err(NativeError::InvalidMessage(m)) => assert_eq!(m, "No equal sign found in fix string"),
        other => panic!("unexpected {:?}", other),
    }
    match Field::parse_from_fix_string("3x=D\x01", 0) {
        Err(NativeError::InvalidMessage(m)) => assert_eq!(m, "Invalid tag value"),
        other => panic!("unexpected {:?}", other),
    }
    match Field::parse_from_fix_string("35=D", 0) {
        Err(NativeError::InvalidMessage(m)) => assert_eq!(m, "failed to find SOH after value"),
        other => panic!("unexpected {:?}", other),
    }
}

#[test]
fn field_length_and_checksum() {
    let field = Field::new(35, "D".to_string());
    assert_eq!(field.length(), 5);
    assert_eq!(field.checksum(), 51 + 53 + 61 + 68 + 1);
}

#[test]
fn set_then_get_keeps_one_field() {
    let mut map = FieldMap::new();
    map.set_string(11, "A");
    map.set_string(11, "B");
    assert_eq!(map.size(), 1);
    assert_eq!(map.get_string(11).unwrap(), "B");
    assert!(map.has_field(11));
    assert_eq!(map.remove_field(11), Some("B".to_string()));
    assert!(map.is_empty());
}

#[test]
fn typed_values_read_back() {
    let mut map = FieldMap::new();
    map.set_int(1, 4294967295);
    map.set_bool(2, true);
    map.set_bool(3, false);
    map.set_char(4, 'Z');
    assert_eq!(map.get_int(1).unwrap(), 4294967295);
    assert_eq!(map.get_bool(2).unwrap(), true);
    assert_eq!(map.get_bool(3).unwrap(), false);
    assert_eq!(map.get_char(4).unwrap(), 'Z');
    assert_eq!(map.get_string(2).unwrap(), "Y");
    assert_eq!(map.get_string(3).unwrap(), "N");
}

#[test]
fn typed_getters_report_errors() {
    let mut map = FieldMap::new();
    assert!(matches!(map.get_string(9), Err(NativeError::FieldNotFound(_))));
    map.set_string(9, "abc");
    assert!(matches!(map.get_int(9), Err(NativeError::FieldConvertError(_))));
    assert!(matches!(map.get_bool(9), Err(NativeError::FieldConvertError(_))));
    assert_eq!(map.get_char(9).unwrap(), 'a');
    map.set_string(12, "");
    assert!(matches!(map.get_char(12), Err(NativeError::FieldConvertError(_))));
    map.set_string(10, "y");
    assert_eq!(map.get_bool(10).unwrap(), true);
}

#[test]
fn fields_are_written_in_message_order() {
    let mut map = FieldMap::new_with_order(MessageOrder::header());
    map.set_string(35, "D");
    map.set_string(49, "S");
    map.set_string(8, "FIX.4.4");
    map.set_string(9, "12");
    map.sort_fields();
    assert_eq!(map.to_fix_string(), "8=FIX.4.4\x019=12\x0135=D\x0149=S\x01");
    assert_eq!(map.get_field_tags(), vec![8, 9, 35, 49]);
}

#[test]
fn groups_can_be_replaced_and_removed() {
    let mut map = FieldMap::new();
    let mut g1 = Group::new(268, 269, None);
    g1.set_string(269, "0");
    let mut g2 = Group::new(268, 269, None);
    g2.set_string(269, "1");
    map.add_group(g1);
    map.add_group(g2);
    assert_eq!(map.group_count(268), 2);
    assert_eq!(map.get_int(268).unwrap(), 2);
    assert!(map.has_group(268));
    assert!(map.has_group_at(1, 268));
    assert!(!map.has_group_at(2, 268));

    let mut g3 = Group::new(268, 269, None);
    g3.set_string(269, "2");
    map.replace_group(268, 0, g3).unwrap();
    assert_eq!(map.get_group(268, 0).unwrap().get_string(269).unwrap(), "2");
    assert!(map.replace_group(268, 5, Group::new(268, 269, None)).is_err());

    let removed = map.remove_group(268, 0).unwrap();
    assert_eq!(removed.get_string(269).unwrap(), "2");
    assert_eq!(map.group_count(268), 1);
    assert_eq!(map.get_int(268).unwrap(), 1);
    assert!(map.remove_group(268, 3).is_err());

    let all = map.remove_all_groups(268).unwrap();
    assert_eq!(all.len(), 1);
    assert!(!map.has_group(268));
    assert!(!map.has_field(268));
}

#[test]
fn groups_are_written_after_their_counter() {
    let mut map = FieldMap::new();
    map.set_string(55, "MSFT");
    let mut g = Group::new(268, 269, None);
    g.set_string(269, "0");
    g.set_string(270, "1.5");
    map.add_group(g);
    assert_eq!(map.to_fix_string(), "55=MSFT\x01268=1\x01269=0\x01270=1.5\x01");
    let expected_len = "55=MSFT\x01268=1\x01269=0\x01270=1.5\x01".len();
    assert_eq!(map.calculate_length(), expected_len);
    let expected_sum: u32 = "55=MSFT\x01268=1\x01269=0\x01270=1.5\x01".bytes().map(|b| b as u32).sum();
    assert_eq!(map.calculate_checksum(), expected_sum);
}

#[test]
fn parsing_reads_back_written_fields() {
    let mut map = FieldMap::new();
    map.set_string(35, "D");
    map.set_string(11, "ORDER-1");
    let text = map.to_fix_string();
    let mut back = FieldMap::new();
    back.from_fix_string(&text).unwrap();
    assert_eq!(back.get_string(35).unwrap(), "D");
    assert_eq!(back.get_string(11).unwrap(), "ORDER-1");
    assert_eq!(back.size(), 2);
}

#[test]
fn clear_and_copy() {
    let mut map = FieldMap::new();
    map.set_string(1, "a");
    map.add_group(Group::new(2, 3, None));
    let mut other = FieldMap::new();
    other.copy_from(&map);
    assert_eq!(other.get_string(1).unwrap(), "a");
    assert_eq!(other.group_count(2), 1);
    map.clear();
    assert!(map.is_empty());
    assert_eq!(map.group_count(2), 0);
}

#[test]
fn field_reads_back_after_any_prefix() {
    let f = Field::new(44, "12.5".to_string());
    let p = "8=FIX.4.4\x019=5\x01";
    let s = format!("{}{}", p, f.to_fix_string());
    let (g, n) = Field::parse_from_fix_string(&s, p.len()).unwrap();
    assert_eq!(g.tag, 44);
    assert_eq!(g.value, "12.5");
    assert_eq!(n, s.len());
}

#[test]
fn sorting_keeps_repeated_tags_in_their_order() {
    let mut map = FieldMap::new_with_order(MessageOrder::header());
    map.append_field(Field::new(448, "first".to_string()));
    map.append_field(Field::new(35, "D".to_string()));
    map.append_field(Field::new(448, "second".to_string()));
    map.append_field(Field::new(8, "FIX.4.4".to_string()));
    map.append_field(Field::new(448, "third".to_string()));
    map.sort_fields();
    assert_eq!(
        map.to_fix_string(),
        "8=FIX.4.4\x0135=D\x01448=first\x01448=second\x01448=third\x01"
    );
}
