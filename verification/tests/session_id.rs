use quickfix_native::fields::{BeginString, SenderCompID, TargetCompID};
use quickfix_native::session_id::SessionID;

#[test]
fn test_session_id_from_string_without_qualifier() {
    let session_id = SessionID::from_string("FIX.4.4:SENDER->TARGET").unwrap();
    assert_eq!(session_id.get_begin_string().get_value(), "FIX.4.4");
    assert_eq!(session_id.get_sender_comp_id().get_value(), "SENDER");
    assert_eq!(session_id.get_target_comp_id().get_value(), "TARGET");
    assert_eq!(session_id.get_session_qualifier(), "");
    assert_eq!(session_id.to_string_frozen(), "FIX.4.4:SENDER->TARGET");
}

#[test]
fn test_session_id_from_string_with_qualifier() {
    let session_id = SessionID::from_string("FIX.4.4:SENDER->TARGET:QUALIFIER").unwrap();
    assert_eq!(session_id.get_begin_string().get_value(), "FIX.4.4");
    assert_eq!(session_id.get_sender_comp_id().get_value(), "SENDER");
    assert_eq!(session_id.get_target_comp_id().get_value(), "TARGET");
    assert_eq!(session_id.get_session_qualifier(), "QUALIFIER");
    assert_eq!(
        session_id.to_string_frozen(),
        "FIX.4.4:SENDER->TARGET:QUALIFIER"
    );
}

#[test]
fn test_session_id_is_fixt() {
    let session_id = SessionID::from_string("FIXT.1.1:SENDER->TARGET").unwrap();
    assert!(session_id.is_fixt());

    let session_id2 = SessionID::from_string("FIX.4.4:SENDER->TARGET").unwrap();
    assert!(!session_id2.is_fixt());
}

#[test]
fn test_invalid_session_id_string() {
    assert!(SessionID::from_string("invalid").is_none());
    assert!(SessionID::from_string("FIX.4.4:SENDER").is_none()); // Missing ->
    assert!(SessionID::from_string("SENDER->TARGET").is_none()); // Missing first :
}

#[test]
fn session_id_new_builds_frozen_text() {
    let id = SessionID::new(
        "FIX.4.2".to_string(),
        "A".to_string(),
        "B".to_string(),
        "Q".to_string(),
    );
    assert_eq!(id.to_string_frozen(), "FIX.4.2:A->B:Q");
    assert!(!id.is_fixt());
    let back = SessionID::from_string(id.to_string_frozen()).unwrap();
    assert_eq!(back, id);
}

#[test]
fn session_id_text_reads_back_without_qualifier() {
    let id = SessionID::new(
        "FIXT.1.1".to_string(),
        "CLIENT".to_string(),
        "EXCHANGE".to_string(),
        String::new(),
    );
    assert_eq!(id.to_string_frozen(), "FIXT.1.1:CLIENT->EXCHANGE");
    assert!(id.is_fixt());
    let back = SessionID::from_string(id.to_string_frozen()).unwrap();
    assert_eq!(back.get_sender_comp_id().get_value(), "CLIENT");
    assert_eq!(back.get_target_comp_id().get_value(), "EXCHANGE");
    assert_eq!(back.get_session_qualifier(), "");
}

#[test]
fn field_wrappers_hold_their_text() {
    let b = BeginString::from("FIX.4.4".to_string());
    assert_eq!(b.get_value(), "FIX.4.4");
    assert_eq!(b.get_string(), "FIX.4.4");
    let s = SenderCompID::from("S".to_string());
    assert_eq!(s.get_string(), "S");
    let t = TargetCompID::from("T".to_string());
    assert_eq!(t.get_value(), "T");
}

#[test]
fn session_text_order_is_checked() {
    assert!(SessionID::is_text_in_order("FIX.4.4:SENDER->TARGET"));
    assert!(SessionID::is_text_in_order("FIX.4.4:SENDER->TARGET:Q"));
    assert!(SessionID::is_text_in_order("invalid"));
    assert!(!SessionID::is_text_in_order("A->B:C"));
    assert!(!SessionID::is_text_in_order("A:B:C->D"));
}

#[test]
fn session_ids_convert_from_text() {
    let id = SessionID::try_from("FIX.4.4:SENDER->TARGET").unwrap();
    assert_eq!(id.get_sender_comp_id().get_value(), "SENDER");
    let id2 = SessionID::try_from("FIX.4.2:A->B:Q".to_string()).unwrap();
    assert_eq!(id2.get_session_qualifier(), "Q");
    assert_eq!(SessionID::try_from("invalid").unwrap_err(), "Invalid SessionID format");
    assert_eq!(SessionID::try_from("A:B:C->D").unwrap_err(), "Invalid SessionID format");
    assert!(SessionID::try_from_text("FIX.4.4:SENDER").is_err());
}
