use quickfix_native::dictionary::Dictionary;
use quickfix_native::errors::NativeError;

#[test]
fn keys_and_values_are_trimmed_and_upper_cased() {
    let mut d = Dictionary::new("SESSION".to_string());
    d.set_string(" SenderCompID ", " client ");
    assert_eq!(d.get_name(), "SESSION");
    assert_eq!(d.size(), 1);
    assert!(d.has("SENDERCOMPID"));
    assert!(d.has(" SenderCompID"));
    assert!(!d.has("TargetCompID"));
    assert_eq!(d.get_string("sendercompid", false).unwrap(), "CLIENT");
    assert_eq!(d.get_string(" SenderCompID", true).unwrap(), "CLIENT");
}

#[test]
fn missing_key_is_a_config_error() {
    let d = Dictionary::new("X".to_string());
    match d.get_string("Port", false) {
        Err(NativeError::ConfigError(m)) => assert_eq!(m, "Port not defined"),
        other => panic!("unexpected {:?}", other),
    }
}

#[test]
fn ints_read_back() {
    let mut d = Dictionary::new("X".to_string());
    d.set_int("port", -5001);
    assert_eq!(d.get_int("PORT").unwrap(), -5001);
    d.set_string("bad", "12a");
    match d.get_int("bad") {
        Err(NativeError::FieldConvertError(m)) => assert_eq!(m, "Illegal value 12A for bad "),
        other => panic!("unexpected {:?}", other),
    }
}

#[test]
fn bools_read_back() {
    let mut d = Dictionary::new("X".to_string());
    d.set_bool("yes", true);
    d.set_bool("no", false);
    d.set_string("maybe", "perhaps");
    assert_eq!(d.get_bool("yes").unwrap(), true);
    assert_eq!(d.get_bool("no").unwrap(), false);
    d.set_string("lower", "n");
    assert_eq!(d.get_bool("lower").unwrap(), false);
    match d.get_bool("maybe") {
        Err(NativeError::FieldConvertError(m)) => assert_eq!(m, "Illegal value PERHAPS for maybe"),
        other => panic!("unexpected {:?}", other),
    }
    assert_eq!(Dictionary::convert_bool("y"), Some(true));
    assert_eq!(Dictionary::convert_bool("N"), Some(false));
    assert_eq!(Dictionary::convert_bool("x"), None);
}

#[test]
fn days_read_back() {
    let mut d = Dictionary::new("X".to_string());
    for day in 1..=7 {
        d.set_day("StartDay", day);
        assert_eq!(d.get_day("StartDay").unwrap(), day);
    }
    d.set_day("StartDay", 9);
    assert_eq!(d.get_day("StartDay").unwrap(), 7);
    d.set_string("EndDay", "Monday");
    assert_eq!(d.get_day("EndDay").unwrap(), 2);
    d.set_string("Bad", "x");
    assert!(matches!(d.get_day("Bad"), Err(NativeError::FieldConvertError(_))));
    d.set_string("Bad2", "xyz");
    assert!(matches!(d.get_day("Bad2"), Err(NativeError::FieldConvertError(_))));
    assert_eq!(d.day_of("EndDay").unwrap().unwrap(), 2);
}

#[test]
fn merge_keeps_existing_values() {
    let mut a = Dictionary::new("A".to_string());
    a.set_string("k1", "a1");
    let mut b = Dictionary::new("B".to_string());
    b.set_string("k1", "b1");
    b.set_string("k2", "b2");
    a.merge(&b).unwrap();
    assert_eq!(a.size(), 2);
    assert_eq!(a.get_string("k1", false).unwrap(), "A1");
    assert_eq!(a.get_string("k2", false).unwrap(), "B2");
    assert_eq!(a.get_name(), "A");
}

#[test]
fn default_dictionary_is_empty() {
    let d = Dictionary::default();
    assert_eq!(d.size(), 0);
    assert_eq!(d.get_name(), "");
    let c = d.clone();
    assert_eq!(c.size(), 0);
}

#[test]
fn writing_a_key_again_keeps_one_setting() {
    let mut d = Dictionary::new("X".to_string());
    d.set_string("Host", "a");
    d.set_string(" HOST ", "b");
    assert_eq!(d.size(), 1);
    assert_eq!(d.get_string("host", false).unwrap(), "B");
    d.set_string("Port", "1");
    assert_eq!(d.size(), 2);
}

#[test]
fn settings_are_listed_once_each() {
    let mut d = Dictionary::new("X".to_string());
    d.set_string("a", "1");
    d.set_string("b", "2");
    d.set_string("A", "3");
    let mut entries = d.into_iter();
    entries.sort();
    assert_eq!(entries, vec![("A".to_string(), "3".to_string()), ("B".to_string(), "2".to_string())]);
}

#[test]
fn keys_are_found_as_they_were_written() {
    let mut d = Dictionary::new("S".to_string());
    d.set_string("foo", "x");
    assert!(d.has("foo"));
    assert!(d.has("FOO"));
    assert!(d.get_string("foo", false).is_ok());
}

#[test]
fn ascii_values_read_back_in_upper_case_once() {
    let mut d = Dictionary::new("S".to_string());
    d.set_string(" host ", "  exchange-1.example ");
    assert_eq!(d.get_string("HOST", true).unwrap(), "EXCHANGE-1.EXAMPLE");
    assert_eq!(d.get_string("host", false).unwrap(), "EXCHANGE-1.EXAMPLE");
}
