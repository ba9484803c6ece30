use quickfix_native::group::GroupOperations;
use quickfix_native::message::Message;

#[test]
fn a_copied_message_holds_the_same_fields() {
    let mut m = Message::new();
    m.get_header_mut().get_field_map_mut().set_string(35, "D");
    m.get_field_map_mut().set_string(55, "IBM");
    m.get_trailer_mut().get_field_map_mut().set_string(10, "123");
    let c = m.clone();
    assert_eq!(c.get_header().to_fix_string(), "35=D\x01");
    assert_eq!(c.to_fix_string(), "55=IBM\x01");
    assert_eq!(c.get_trailer().to_fix_string(), "10=123\x01");
    m.get_field_map_mut().set_string(55, "MSFT");
    assert_eq!(c.to_fix_string(), "55=IBM\x01");
}
