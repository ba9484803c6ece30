use quickfix_native::data_dictionary::DataDictionary;
use quickfix_native::errors::NativeError;
use quickfix_native::fix_spec::{FieldType, FieldValue, FixSpec, FixSpecError, MessageCategory};
use quickfix_native::spec_xml::{parse_events, parse_spec, read_attribute, write_spec};
use quickfix_native::xml::{XmlAttribute, XmlElement, XmlEvent};

fn check_text(expected: &[u8]) {
    assert!(parse_spec(expected).is_err(),);
}

#[test]
fn test_read_attributes() {
    let div = XmlElement {
        name: b"div".to_vec(),
        attributes: vec![Some(XmlAttribute { key: b"class".to_vec(), value: b"test-me".to_vec() })],
    };

    // Check valid.
    assert_eq!(read_attribute(&div, "class").as_deref(), Ok("test-me"));

    // Check not found.
    assert_eq!(
        read_attribute(&div, "style"),
        Err(FixSpecError::InvalidAttribute("style".to_string()))
    );
}

#[test]
fn test_invalid_parse() {
    // Bad root node.
    check_text(b"<root></root>");

    // Bad version.
    check_text(r#"<fix major="8"></fix>"#.as_bytes());
    check_text(r#"<fix major="8" minor="4"></fix>"#.as_bytes());
    check_text(r#"<fix major="hello"></fix>"#.as_bytes());
    check_text(r#"<fix major="8" minor="hello"></fix>"#.as_bytes());

    // Missing fix type.
    check_text(r#"<fix major="8" minor="4" servicepack="3"></fix>"#.as_bytes());

    // Invalid XML.
    check_text(b"<fix type='FIXT' major='1' minor='1' servicepack='0'><head");

    // Invalid UTF8 attribute.
    check_text(b"<fix type='\xFF\xFF' major='1' minor='1' servicepack='0'><head");
}

const SAMPLE: &str = "<fix type='FIX' major='4' minor='4' servicepack='0'>
 <header>
  <field name='BeginString' required='Y' />
  <group name='NoHops' required='N'>
   <field name='HopCompID' required='N' />
  </group>
 </header>
 <messages>
  <message name='Heartbeat' msgtype='0' msgcat='admin'>
   <field name='TestReqID' required='N' />
   <component name='Instrument' required='Y' />
  </message>
  <message name='Logout' msgtype='5' msgcat='admin' />
 </messages>
 <trailer>
  <field name='CheckSum' required='Y' />
 </trailer>
 <components>
  <component name='Instrument'>
   <field name='Symbol' required='Y' />
  </component>
 </components>
 <fields>
  <field number='8' name='BeginString' type='STRING' />
  <field number='10' name='CheckSum' type='STRING' />
  <field number='55' name='Symbol' type='STRING' />
  <field number='112' name='TestReqID' type='STRING' />
  <field number='627' name='NoHops' type='NUMINGROUP' />
  <field number='628' name='HopCompID' type='STRING' />
  <field number='54' name='Side' type='CHAR'>
   <value enum='1' description='BUY' />
   <value enum='2' description='SELL' />
  </field>
 </fields>
</fix>";

#[test]
fn sample_spec_is_read() {
    let spec = parse_spec(SAMPLE.as_bytes()).unwrap();
    assert_eq!(spec.version, (4, 4, 0));
    assert!(!spec.is_fixt);
    assert_eq!(spec.headers.len(), 2);
    match &spec.headers[1] {
        FieldValue::Group(g) => {
            assert_eq!(g.name, "NoHops");
            assert!(!g.required);
            assert_eq!(g.values.len(), 1);
        }
        other => panic!("unexpected {:?}", other),
    }
    assert_eq!(spec.messages.len(), 2);
    assert_eq!(spec.messages[0].name, "Heartbeat");
    assert_eq!(spec.messages[0].msg_type, "0");
    assert_eq!(spec.messages[0].category, MessageCategory::Admin);
    assert_eq!(spec.messages[0].values.len(), 2);
    assert!(spec.messages[1].values.is_empty());
    assert_eq!(spec.trailers.len(), 1);
    assert_eq!(spec.component_specs.len(), 1);
    assert_eq!(spec.component_specs[0].values.len(), 1);
    assert_eq!(spec.field_specs.len(), 7);
    assert_eq!(spec.field_specs[6].number, 54);
    assert_eq!(spec.field_specs[6].field_type, FieldType::Char);
    assert_eq!(spec.field_specs[6].values.len(), 2);
    assert_eq!(spec.field_specs[6].values[1].description, "SELL");
}

#[test]
fn written_spec_reads_back_as_the_document() {
    let spec = parse_spec(SAMPLE.as_bytes()).unwrap();
    let out = write_spec(&spec).unwrap();
    let out_txt = String::from_utf8(out.to_vec())
        .unwrap()
        .replace('\"', "'")
        .replace("/>", " />");
    assert_eq!(out_txt, SAMPLE);
}

#[test]
fn reading_what_was_written_gives_the_spec_back() {
    let spec = parse_spec(SAMPLE.as_bytes()).unwrap();
    let out = write_spec(&spec).unwrap();
    let back = parse_spec(&out).unwrap();
    assert_eq!(format!("{:?}", back), format!("{:?}", spec));
    assert_eq!(back.field_specs[6].values[1].description, "SELL");
    assert_eq!(write_spec(&back).unwrap(), out);
}

#[test]
fn empty_sections_are_written_as_empty_elements() {
    let out = write_spec(&FixSpec::new_fixt()).unwrap();
    let txt = String::from_utf8(out.to_vec()).unwrap();
    assert_eq!(
        txt,
        "<fix type=\"FIXT\" major=\"1\" minor=\"1\" servicepack=\"0\">\n <header/>\n <messages/>\n <trailer/>\n <components/>\n <fields/>\n</fix>"
    );
    let back = parse_spec(txt.as_bytes()).unwrap();
    assert!(back.is_fixt);
    assert_eq!(back.version, (1, 1, 0));
}

#[test]
fn parse_errors_are_reported() {
    assert_eq!(parse_spec(b"<root></root>").unwrap_err(), FixSpecError::InvalidDocument("invalid root"));
    assert_eq!(parse_spec(b"").unwrap_err(), FixSpecError::InvalidDocument("invalid root"));
    assert_eq!(
        parse_spec(br#"<fix major="8"></fix>"#).unwrap_err(),
        FixSpecError::InvalidAttribute("minor".to_string())
    );
    assert_eq!(
        parse_spec(br#"<fix major="hello"></fix>"#).unwrap_err(),
        FixSpecError::InvalidContent("invalid digit found in string".to_string())
    );
    assert_eq!(
        parse_spec(br#"<fix major="" minor="1"></fix>"#).unwrap_err(),
        FixSpecError::InvalidContent("cannot parse integer from empty string".to_string())
    );
    assert_eq!(
        parse_spec(br#"<fix major="300" minor="1"></fix>"#).unwrap_err(),
        FixSpecError::InvalidContent("number too large to fit in target type".to_string())
    );
    assert_eq!(
        parse_spec(br#"<fix major="8" minor="4" servicepack="3"></fix>"#).unwrap_err(),
        FixSpecError::InvalidAttribute("type".to_string())
    );
    assert!(matches!(
        parse_spec(b"<fix type='FIXT' major='1' minor='1' servicepack='0'><head").unwrap_err(),
        FixSpecError::Xml(_)
    ));
    assert!(matches!(
        parse_spec(b"<fix type='\xFF\xFF' major='1' minor='1' servicepack='0'></fix>").unwrap_err(),
        FixSpecError::InvalidContent(_)
    ));
    assert_eq!(
        parse_spec(b"<fix type='FIX' major='1' minor='1' servicepack='0'><header>").unwrap_err(),
        FixSpecError::InvalidDocument("unexpected end of document")
    );
    assert_eq!(
        parse_spec(b"<fix type='FIX' major='4' minor='2' servicepack='0'><fields><field number='1' name='A' type='NOPE'/></fields></fix>").unwrap_err(),
        FixSpecError::InvalidContent("unknown field type: NOPE".to_string())
    );
    assert_eq!(
        parse_spec(b"<fix type='FIX' major='4' minor='2' servicepack='0'><messages><message name='A' msgtype='B' msgcat='x'/></messages></fix>").unwrap_err(),
        FixSpecError::InvalidContent("invalid msgcat: x".to_string())
    );
}

#[test]
fn data_dictionary_from_xml() {
    let dd = DataDictionary::from_xml_string(SAMPLE).unwrap();
    assert_eq!(dd.get_version().unwrap(), "FIX.4.4");
    assert!(dd.is_msg_type("0"));
    assert!(dd.is_msg_field("0", 55));
    assert!(dd.is_required_field("0", 55));
    assert!(dd.is_header_field(627));
    assert_eq!(dd.get_field_tag("Side"), Some(54));
    match DataDictionary::from_xml_bytes(b"<root/>") {
        Err(NativeError::XMLError(m)) => assert_eq!(m, "invalid document: invalid root"),
        other => panic!("unexpected {:?}", other.map(|_| ())),
    }
}

fn element(name: &str, attrs: &[(&str, &str)]) -> XmlElement {
    XmlElement {
        name: name.as_bytes().to_vec(),
        attributes: attrs
            .iter()
            .map(|(k, v)| Some(XmlAttribute { key: k.as_bytes().to_vec(), value: v.as_bytes().to_vec() }))
            .collect(),
    }
}

fn fix_start() -> Result<XmlEvent, String> {
    Ok(XmlEvent::Start(element(
        "fix",
        &[("type", "FIX"), ("major", "4"), ("minor", "2"), ("servicepack", "0")],
    )))
}

#[test]
fn events_are_read_into_a_spec() {
    let events = vec![
        fix_start(),
        Ok(XmlEvent::Start(element("header", &[]))),
        Ok(XmlEvent::Empty(element("field", &[("name", "BeginString"), ("required", "Y")]))),
        Ok(XmlEvent::End(b"header".to_vec())),
        Ok(XmlEvent::Other),
        Ok(XmlEvent::Start(element("fields", &[]))),
        Ok(XmlEvent::Empty(element("field", &[("number", "8"), ("name", "BeginString"), ("type", "STRING")]))),
        Ok(XmlEvent::End(b"fields".to_vec())),
        Ok(XmlEvent::End(b"fix".to_vec())),
    ];
    let spec = parse_events(&events).unwrap();
    assert_eq!(spec.version, (4, 2, 0));
    assert!(!spec.is_fixt);
    assert_eq!(spec.headers.len(), 1);
    assert_eq!(spec.field_specs.len(), 1);
    assert_eq!(spec.field_specs[0].number, 8);
    assert_eq!(spec.field_specs[0].field_type, FieldType::String);
}

#[test]
fn event_lists_that_are_no_spec_are_refused() {
    assert_eq!(parse_events(&[]).unwrap_err(), FixSpecError::InvalidDocument("invalid root"));
    assert_eq!(
        parse_events(&[Err("broken tag".to_string())]).unwrap_err(),
        FixSpecError::Xml("broken tag".to_string())
    );
    assert_eq!(
        parse_events(&[fix_start(), Ok(XmlEvent::Start(element("header", &[])))]).unwrap_err(),
        FixSpecError::InvalidDocument("unexpected end of document")
    );
    assert_eq!(
        parse_events(&[Ok(XmlEvent::Start(element("root", &[])))]).unwrap_err(),
        FixSpecError::InvalidDocument("invalid root")
    );
}
