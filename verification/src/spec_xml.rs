//! Reading a FIX XML dictionary into a [`FixSpec`], and writing one back.
//!
//! Reading walks a stream of events, from the quick-xml reader over a document
//! or from a list of events already read: the root `fix` element with its
//! version attributes, then the `header`, `messages`, `trailer`, `components`
//! and `fields` sections. Writing hands the writer the start, empty
//! and end tags of the same sections.

use vstd::prelude::*;
use vstd::string::StringSliceAdditionalSpecFns;
use vstd::utf8::{decode_utf8, encode_utf8, valid_utf8};
use quick_xml::{Reader, Writer};
use bytes::Bytes;
use crate::fix_spec::{
    allowed_value_model, component_spec_model, field_spec_model, field_type_from_name, field_type_name,
    field_value_model, field_values_model, fix_spec_view, lemma_group_model, message_category_from_name,
    message_category_name, message_spec_model, parse_field_type, parse_message_category, Component,
    ComponentSpec, ComponentSpecModel, Field, FieldAllowedValue, FieldSpec, FieldSpecModel, FieldValue,
    FieldValueModel, FixSpec, FixSpecError, FixSpecErrorView, FixSpecModel, Group, Message,
    MessageSpecModel,
};
use crate::text::{
    all_digit_bytes, decimal_digits, digits_value, is_digit_byte, lemma_decimal_bytes, lemma_decimal_digits,
    lemma_digits_value_prefix, push_str, u32_to_decimal,
};
use crate::xml::{
    bytes_are, bytes_content, bytes_from_vec, new_writer, read_view, reads_view, source_event,
    EventSourceView, EventStream, write_event, writer_bytes, writer_events, xml_event, xml_text,
    XmlAttribute, XmlElement, XmlElementView, XmlEvent, XmlEventView, XmlOutput, XmlOutputView,
    XmlTag, XmlTagView,
};

verus! {

// ---------------------------------------------------------------------------
// Attributes and numbers
// ---------------------------------------------------------------------------

/// The UTF-8 bytes of a tag or attribute name.
pub open spec fn name_bytes(s: Seq<char>) -> Seq<u8> {
    encode_utf8(s)
}

/// The raw value of the first readable attribute at or after `i` whose key is
/// `key`.
pub open spec fn find_attribute(attrs: Seq<Option<(Seq<u8>, Seq<u8>)>>, key: Seq<u8>, i: int) -> Option<Seq<u8>>
    decreases attrs.len() - i,
{
    if i < 0 || i >= attrs.len() {
        None
    } else {
        match attrs[i] {
            Some((k, v)) => if k == key {
                Some(v)
            } else {
                find_attribute(attrs, key, i + 1)
            },
            None => find_attribute(attrs, key, i + 1),
        }
    }
}

/// What `String::from_utf8` reports on bytes that are not UTF-8.
pub uninterp spec fn utf8_error_text(bytes: Seq<u8>) -> Seq<char>;

/// `String::from_utf8`, its error turned to text. The contract claims what the
/// documentation says: the result is a string exactly where the bytes are UTF-8,
/// and the string holds those bytes; otherwise it is the error's text.
#[verifier::external_body]
fn string_from_utf8(bytes: Vec<u8>) -> (r: Result<String, String>)
    ensures
        r is Ok <==> valid_utf8(bytes@),
        r matches Ok(s) ==> s@ == decode_utf8(bytes@),
        r matches Err(m) ==> m@ == utf8_error_text(bytes@),
{
    match String::from_utf8(bytes) {
        Ok(s) => Ok(s),
        Err(e) => Err(e.to_string()),
    }
}

/// The text of an attribute of an element: missing, it is an invalid attribute;
/// not UTF-8, it is invalid content.
pub open spec fn attribute_text(el: XmlElementView, name: Seq<char>) -> Result<Seq<char>, FixSpecErrorView> {
    match find_attribute(el.attributes, name_bytes(name), 0) {
        None => Err(FixSpecErrorView::InvalidAttribute(name)),
        Some(v) => if valid_utf8(v) {
            Ok(decode_utf8(v))
        } else {
            Err(FixSpecErrorView::InvalidContent(utf8_error_text(v)))
        },
    }
}

/// The text `str::parse` gives when a string is empty.
pub open spec fn empty_number_text() -> Seq<char> {
    "cannot parse integer from empty string"@
}

/// The text `str::parse` gives on a character that is no digit.
pub open spec fn invalid_digit_text() -> Seq<char> {
    "invalid digit found in string"@
}

/// The text `str::parse` gives on a number too large for its type.
pub open spec fn number_too_large_text() -> Seq<char> {
    "number too large to fit in target type"@
}

/// Reading digits from `i` on, `acc` the value of those before: the first byte
/// that is no digit, or the first digit that takes the value past `max`, gives
/// the error.
pub open spec fn scan_digits(d: Seq<u8>, i: int, acc: nat, max: nat) -> Result<nat, Seq<char>>
    decreases d.len() - i,
{
    if i < 0 || i >= d.len() {
        Ok(acc)
    } else if !is_digit_byte(d[i]) {
        Err(invalid_digit_text())
    } else if acc * 10 + (d[i] - 48) > max {
        Err(number_too_large_text())
    } else {
        scan_digits(d, i + 1, (acc * 10 + (d[i] - 48)) as nat, max)
    }
}

/// `str::parse` of an unsigned integer type whose largest value is `max`: an
/// optional `+`, then digits read from the left.
pub open spec fn parse_uint(b: Seq<u8>, max: nat) -> Result<nat, Seq<char>> {
    if b.len() == 0 {
        Err(empty_number_text())
    } else if b.len() == 1 && (b[0] == 43 || b[0] == 45) {
        Err(invalid_digit_text())
    } else if b[0] == 43 {
        scan_digits(b.skip(1), 0, 0, max)
    } else {
        scan_digits(b, 0, 0, max)
    }
}

/// An attribute read as an unsigned number no larger than `max`.
pub open spec fn attribute_number(el: XmlElementView, name: Seq<char>, max: nat) -> Result<nat, FixSpecErrorView> {
    match attribute_text(el, name) {
        Err(e) => Err(e),
        Ok(t) => match parse_uint(encode_utf8(t), max) {
            Ok(n) => Ok(n),
            Err(m) => Err(FixSpecErrorView::InvalidContent(m)),
        },
    }
}

// ---------------------------------------------------------------------------
// The elements
// ---------------------------------------------------------------------------

/// A field, group or component reference: its `name`, and `required` equal to
/// `Y`.
pub open spec fn reference_node(el: XmlElementView) -> Result<(Seq<char>, bool), FixSpecErrorView> {
    match attribute_text(el, "name"@) {
        Err(e) => Err(e),
        Ok(n) => match attribute_text(el, "required"@) {
            Err(e) => Err(e),
            Ok(r) => Ok((n, r == "Y"@)),
        },
    }
}

/// The root element: its version (`major`, `minor`, `servicepack`) and whether
/// its `type` is `FIXT`.
pub open spec fn fix_node(el: XmlElementView) -> Result<FixSpecModel, FixSpecErrorView> {
    match attribute_number(el, "major"@, 255) {
        Err(e) => Err(e),
        Ok(major) => match attribute_number(el, "minor"@, 255) {
            Err(e) => Err(e),
            Ok(minor) => match attribute_number(el, "servicepack"@, 255) {
                Err(e) => Err(e),
                Ok(sp) => match attribute_text(el, "type"@) {
                    Err(e) => Err(e),
                    Ok(t) => Ok(
                        FixSpecModel {
                            version: (major as u8, minor as u8, sp as u8),
                            is_fixt: t == "FIXT"@,
                            headers: Seq::empty(),
                            messages: Seq::empty(),
                            trailers: Seq::empty(),
                            component_specs: Seq::empty(),
                            field_specs: Seq::empty(),
                        },
                    ),
                },
            },
        },
    }
}

/// A field definition element: `number`, `name` and `type`.
pub open spec fn field_spec_node(el: XmlElementView) -> Result<FieldSpecModel, FixSpecErrorView> {
    match attribute_number(el, "number"@, u32::MAX as nat) {
        Err(e) => Err(e),
        Ok(number) => match attribute_text(el, "name"@) {
            Err(e) => Err(e),
            Ok(name) => match attribute_text(el, "type"@) {
                Err(e) => Err(e),
                Ok(t) => match field_type_from_name(t) {
                    None => Err(FixSpecErrorView::InvalidContent("unknown field type: "@ + t)),
                    Some(ft) => Ok(
                        FieldSpecModel { number: number as u32, name, field_type: ft, values: Seq::empty() },
                    ),
                },
            },
        },
    }
}

/// An allowed value element: `enum` and `description`.
pub open spec fn allowed_value_node(el: XmlElementView) -> Result<(Seq<char>, Seq<char>), FixSpecErrorView> {
    match attribute_text(el, "enum"@) {
        Err(e) => Err(e),
        Ok(v) => match attribute_text(el, "description"@) {
            Err(e) => Err(e),
            Ok(d) => Ok((v, d)),
        },
    }
}

/// A message element: `name`, `msgtype` and `msgcat`.
pub open spec fn message_node(el: XmlElementView) -> Result<MessageSpecModel, FixSpecErrorView> {
    match attribute_text(el, "name"@) {
        Err(e) => Err(e),
        Ok(name) => match attribute_text(el, "msgtype"@) {
            Err(e) => Err(e),
            Ok(msg_type) => match attribute_text(el, "msgcat"@) {
                Err(e) => Err(e),
                Ok(c) => match message_category_from_name(c) {
                    None => Err(FixSpecErrorView::InvalidContent("invalid msgcat: "@ + c)),
                    Some(category) => Ok(
                        MessageSpecModel { name, msg_type, category, values: Seq::empty() },
                    ),
                },
            },
        },
    }
}

/// A component definition element: its `name`.
pub open spec fn component_node(el: XmlElementView) -> Result<ComponentSpecModel, FixSpecErrorView> {
    match attribute_text(el, "name"@) {
        Err(e) => Err(e),
        Ok(name) => Ok(ComponentSpecModel { name, values: Seq::empty() }),
    }
}

// ---------------------------------------------------------------------------
// Walking the events
// ---------------------------------------------------------------------------

/// Where the reads would go past the number of reads allowed for the document.
pub open spec fn too_many_events_error() -> FixSpecErrorView {
    FixSpecErrorView::InvalidDocument("too many XML events"@)
}

/// Where the document ends before its elements are closed.
pub open spec fn early_end_error() -> FixSpecErrorView {
    FixSpecErrorView::InvalidDocument("unexpected end of document"@)
}

/// Where the document does not start with a `fix` element.
pub open spec fn invalid_root_error() -> FixSpecErrorView {
    FixSpecErrorView::InvalidDocument("invalid root"@)
}

/// The event of read number `k`, with `fuel` reads left: an error where no read
/// is left, where the reader fails or where the document ends.
pub open spec fn event_at(src: EventSourceView, k: nat, fuel: nat) -> Result<XmlEventView, FixSpecErrorView> {
    if fuel == 0 {
        Err(too_many_events_error())
    } else {
        match source_event(src, k) {
            Err(m) => Err(FixSpecErrorView::Xml(m)),
            Ok(XmlEventView::Eof) => Err(early_end_error()),
            Ok(e) => Ok(e),
        }
    }
}

/// The element of a start tag or of an empty element.
pub open spec fn element_of(e: XmlEventView) -> Option<XmlElementView> {
    match e {
        XmlEventView::Start(el) => Some(el),
        XmlEventView::Empty(el) => Some(el),
        _ => None,
    }
}

/// Whether an event is the end tag `end`.
pub open spec fn is_end(e: XmlEventView, end: Seq<u8>) -> bool {
    match e {
        XmlEventView::End(n) => n == end,
        _ => false,
    }
}

/// The smaller of two numbers.
pub open spec fn min_nat(a: nat, b: nat) -> nat {
    if a <= b {
        a
    } else {
        b
    }
}

/// The field, group and component references read from read number `k` on, up
/// to the end tag `end`, after those already in `acc`; with the number of the
/// next read and the reads left. A start or empty `group` element reads its own
/// references up to `</group>`.
pub open spec fn values_from(
    src: EventSourceView,
    k: nat,
    fuel: nat,
    end: Seq<u8>,
    acc: Seq<FieldValueModel>,
) -> Result<(Seq<FieldValueModel>, nat, nat), FixSpecErrorView>
    decreases fuel,
{
    match event_at(src, k, fuel) {
        Err(e) => Err(e),
        Ok(ev) => {
            let k1 = k + 1;
            let f1 = (fuel - 1) as nat;
            match element_of(ev) {
                Some(el) => if el.name == name_bytes("field"@) {
                    match reference_node(el) {
                        Err(e) => Err(e),
                        Ok((n, r)) => values_from(src, k1, f1, end, acc.push(FieldValueModel::Field(n, r))),
                    }
                } else if el.name == name_bytes("group"@) {
                    match reference_node(el) {
                        Err(e) => Err(e),
                        Ok((n, r)) => match values_from(src, k1, f1, name_bytes("group"@), Seq::empty()) {
                            Err(e) => Err(e),
                            Ok((vs, k2, f2)) => values_from(
                                src,
                                k2,
                                min_nat(f2, f1),
                                end,
                                acc.push(FieldValueModel::Group(n, r, vs)),
                            ),
                        },
                    }
                } else if el.name == name_bytes("component"@) {
                    match reference_node(el) {
                        Err(e) => Err(e),
                        Ok((n, r)) => values_from(src, k1, f1, end, acc.push(FieldValueModel::Component(n, r))),
                    }
                } else {
                    values_from(src, k1, f1, end, acc)
                },
                None => if is_end(ev, end) {
                    Ok((acc, k1, f1))
                } else {
                    values_from(src, k1, f1, end, acc)
                },
            }
        },
    }
}

/// The allowed values of a field definition, up to `</field>`.
pub open spec fn allowed_values_from(
    src: EventSourceView,
    k: nat,
    fuel: nat,
    acc: Seq<(Seq<char>, Seq<char>)>,
) -> Result<(Seq<(Seq<char>, Seq<char>)>, nat, nat), FixSpecErrorView>
    decreases fuel,
{
    match event_at(src, k, fuel) {
        Err(e) => Err(e),
        Ok(ev) => {
            let k1 = k + 1;
            let f1 = (fuel - 1) as nat;
            match element_of(ev) {
                Some(el) => if el.name == name_bytes("value"@) {
                    match allowed_value_node(el) {
                        Err(e) => Err(e),
                        Ok(v) => allowed_values_from(src, k1, f1, acc.push(v)),
                    }
                } else {
                    allowed_values_from(src, k1, f1, acc)
                },
                None => if is_end(ev, name_bytes("field"@)) {
                    Ok((acc, k1, f1))
                } else {
                    allowed_values_from(src, k1, f1, acc)
                },
            }
        },
    }
}

/// The field definitions of the `fields` section, up to `</fields>`.
pub open spec fn field_specs_from(
    src: EventSourceView,
    k: nat,
    fuel: nat,
    acc: Seq<FieldSpecModel>,
) -> Result<(Seq<FieldSpecModel>, nat, nat), FixSpecErrorView>
    decreases fuel,
{
    match event_at(src, k, fuel) {
        Err(e) => Err(e),
        Ok(ev) => {
            let k1 = k + 1;
            let f1 = (fuel - 1) as nat;
            match ev {
                XmlEventView::Start(el) => if el.name == name_bytes("field"@) {
                    match field_spec_node(el) {
                        Err(e) => Err(e),
                        Ok(f) => match allowed_values_from(src, k1, f1, Seq::empty()) {
                            Err(e) => Err(e),
                            Ok((vs, k2, f2)) => field_specs_from(
                                src,
                                k2,
                                min_nat(f2, f1),
                                acc.push(FieldSpecModel { values: vs, ..f }),
                            ),
                        },
                    }
                } else {
                    field_specs_from(src, k1, f1, acc)
                },
                XmlEventView::Empty(el) => if el.name == name_bytes("field"@) {
                    match field_spec_node(el) {
                        Err(e) => Err(e),
                        Ok(f) => field_specs_from(src, k1, f1, acc.push(f)),
                    }
                } else {
                    field_specs_from(src, k1, f1, acc)
                },
                _ => if is_end(ev, name_bytes("fields"@)) {
                    Ok((acc, k1, f1))
                } else {
                    field_specs_from(src, k1, f1, acc)
                },
            }
        },
    }
}

/// The message definitions of the `messages` section, up to `</messages>`.
pub open spec fn messages_from(
    src: EventSourceView,
    k: nat,
    fuel: nat,
    acc: Seq<MessageSpecModel>,
) -> Result<(Seq<MessageSpecModel>, nat, nat), FixSpecErrorView>
    decreases fuel,
{
    match event_at(src, k, fuel) {
        Err(e) => Err(e),
        Ok(ev) => {
            let k1 = k + 1;
            let f1 = (fuel - 1) as nat;
            match ev {
                XmlEventView::Start(el) => if el.name == name_bytes("message"@) {
                    match message_node(el) {
                        Err(e) => Err(e),
                        Ok(m) => match values_from(src, k1, f1, name_bytes("message"@), Seq::empty()) {
                            Err(e) => Err(e),
                            Ok((vs, k2, f2)) => messages_from(
                                src,
                                k2,
                                min_nat(f2, f1),
                                acc.push(MessageSpecModel { values: vs, ..m }),
                            ),
                        },
                    }
                } else {
                    messages_from(src, k1, f1, acc)
                },
                XmlEventView::Empty(el) => if el.name == name_bytes("message"@) {
                    match message_node(el) {
                        Err(e) => Err(e),
                        Ok(m) => messages_from(src, k1, f1, acc.push(m)),
                    }
                } else {
                    messages_from(src, k1, f1, acc)
                },
                _ => if is_end(ev, name_bytes("messages"@)) {
                    Ok((acc, k1, f1))
                } else {
                    messages_from(src, k1, f1, acc)
                },
            }
        },
    }
}

/// The component definitions of the `components` section, up to
/// `</components>`.
pub open spec fn components_from(
    src: EventSourceView,
    k: nat,
    fuel: nat,
    acc: Seq<ComponentSpecModel>,
) -> Result<(Seq<ComponentSpecModel>, nat, nat), FixSpecErrorView>
    decreases fuel,
{
    match event_at(src, k, fuel) {
        Err(e) => Err(e),
        Ok(ev) => {
            let k1 = k + 1;
            let f1 = (fuel - 1) as nat;
            match ev {
                XmlEventView::Start(el) => if el.name == name_bytes("component"@) {
                    match component_node(el) {
                        Err(e) => Err(e),
                        Ok(c) => match values_from(src, k1, f1, name_bytes("component"@), Seq::empty()) {
                            Err(e) => Err(e),
                            Ok((vs, k2, f2)) => components_from(
                                src,
                                k2,
                                min_nat(f2, f1),
                                acc.push(ComponentSpecModel { values: vs, ..c }),
                            ),
                        },
                    }
                } else {
                    components_from(src, k1, f1, acc)
                },
                XmlEventView::Empty(el) => if el.name == name_bytes("component"@) {
                    match component_node(el) {
                        Err(e) => Err(e),
                        Ok(c) => components_from(src, k1, f1, acc.push(c)),
                    }
                } else {
                    components_from(src, k1, f1, acc)
                },
                _ => if is_end(ev, name_bytes("components"@)) {
                    Ok((acc, k1, f1))
                } else {
                    components_from(src, k1, f1, acc)
                },
            }
        },
    }
}

/// The sections of the root element, up to `</fix>`; a section read again
/// replaces the one read before.
pub open spec fn fix_body_from(src: EventSourceView, k: nat, fuel: nat, s: FixSpecModel) -> Result<
    (FixSpecModel, nat, nat),
    FixSpecErrorView,
>
    decreases fuel,
{
    match event_at(src, k, fuel) {
        Err(e) => Err(e),
        Ok(ev) => {
            let k1 = k + 1;
            let f1 = (fuel - 1) as nat;
            match ev {
                XmlEventView::Start(el) => if el.name == name_bytes("header"@) {
                    match values_from(src, k1, f1, name_bytes("header"@), Seq::empty()) {
                        Err(e) => Err(e),
                        Ok((vs, k2, f2)) => fix_body_from(src, k2, min_nat(f2, f1), FixSpecModel { headers: vs, ..s }),
                    }
                } else if el.name == name_bytes("messages"@) {
                    match messages_from(src, k1, f1, Seq::empty()) {
                        Err(e) => Err(e),
                        Ok((ms, k2, f2)) => fix_body_from(src, k2, min_nat(f2, f1), FixSpecModel { messages: ms, ..s }),
                    }
                } else if el.name == name_bytes("trailer"@) {
                    match values_from(src, k1, f1, name_bytes("trailer"@), Seq::empty()) {
                        Err(e) => Err(e),
                        Ok((vs, k2, f2)) => fix_body_from(src, k2, min_nat(f2, f1), FixSpecModel { trailers: vs, ..s }),
                    }
                } else if el.name == name_bytes("components"@) {
                    match components_from(src, k1, f1, Seq::empty()) {
                        Err(e) => Err(e),
                        Ok((cs, k2, f2)) => fix_body_from(
                            src,
                            k2,
                            min_nat(f2, f1),
                            FixSpecModel { component_specs: cs, ..s },
                        ),
                    }
                } else if el.name == name_bytes("fields"@) {
                    match field_specs_from(src, k1, f1, Seq::empty()) {
                        Err(e) => Err(e),
                        Ok((fs, k2, f2)) => fix_body_from(src, k2, min_nat(f2, f1), FixSpecModel { field_specs: fs, ..s }),
                    }
                } else {
                    fix_body_from(src, k1, f1, s)
                },
                _ => if is_end(ev, name_bytes("fix"@)) {
                    Ok((s, k1, f1))
                } else {
                    fix_body_from(src, k1, f1, s)
                },
            }
        },
    }
}

/// The specification that a source of events describes, with `fuel` reads
/// allowed after the first: its first event must be the start of a `fix`
/// element.
pub open spec fn parsed_from(src: EventSourceView, fuel: nat) -> Result<FixSpecModel, FixSpecErrorView> {
    match source_event(src, 0) {
        Err(m) => Err(FixSpecErrorView::Xml(m)),
        Ok(XmlEventView::Start(el)) => if el.name == name_bytes("fix"@) {
            match fix_node(el) {
                Err(e) => Err(e),
                Ok(s) => match fix_body_from(src, 1, fuel, s) {
                    Err(e) => Err(e),
                    Ok((m, _, _)) => Ok(m),
                },
            }
        } else {
            Err(invalid_root_error())
        },
        _ => Err(invalid_root_error()),
    }
}

/// The specification a document describes: after the start of its `fix`
/// element, at most one read per byte of the document is made (each event but
/// the end of the document takes at least one byte).
pub open spec fn parsed_spec(input: Seq<u8>) -> Result<FixSpecModel, FixSpecErrorView> {
    parsed_from(EventSourceView::Document(input), input.len())
}

/// The specification that a list of events describes (the document ending after
/// them), with one read allowed per listed event.
pub open spec fn parsed_events(events: Seq<Result<XmlEventView, Seq<char>>>) -> Result<FixSpecModel, FixSpecErrorView> {
    parsed_from(EventSourceView::Listed(events), events.len())
}

// ---------------------------------------------------------------------------
// Reading attributes and elements
// ---------------------------------------------------------------------------

/// The text of the attribute `name` of an element: the first readable attribute
/// with that key, its raw value read as UTF-8.
pub fn read_attribute(item: &XmlElement, name: &str) -> (r: Result<String, FixSpecError>)
    ensures
        match attribute_text(item@, name@) {
            Ok(t) => r matches Ok(s) && s@ == t,
            Err(e) => r matches Err(x) && x@ == e,
        },
{
    let ghost attrs = item@.attributes;
    let ghost key = name_bytes(name@);
    let mut i: usize = 0;
    while i < item.attributes.len()
        invariant
            i <= item.attributes@.len(),
            attrs == item@.attributes,
            attrs.len() == item.attributes@.len(),
            key == name.spec_bytes(),
            find_attribute(attrs, key, 0) == find_attribute(attrs, key, i as int),
        decreases item.attributes@.len() - i,
    {
        assert(attrs[i as int] == crate::xml::attribute_view(item.attributes@[i as int]));
        match &item.attributes[i] {
            Some(a) => {
                if bytes_are(a.key.as_slice(), name) {
                    let v = vstd::slice::slice_to_vec(a.value.as_slice());
                    return match string_from_utf8(v) {
                        Ok(s) => Ok(s),
                        Err(m) => Err(FixSpecError::InvalidContent(m)),
                    };
                }
            },
            None => {},
        }
        i += 1;
    }
    let mut n = String::new();
    push_str(&mut n, name);
    Err(FixSpecError::InvalidAttribute(n))
}

/// `str::parse` of an unsigned number no larger than `max`, on the bytes of a
/// text; its error as invalid content.
fn parse_number(s: &str, max: u64) -> (r: Result<u64, FixSpecError>)
    ensures
        match parse_uint(s.spec_bytes(), max as nat) {
            Ok(n) => r == Ok::<u64, FixSpecError>(n as u64),
            Err(m) => r matches Err(x) && x@ == FixSpecErrorView::InvalidContent(m),
        },
        r matches Ok(n) ==> n <= max,
        parse_uint(s.spec_bytes(), max as nat) matches Ok(n) ==> n <= max,
{
    let b = s.as_bytes();
    if b.len() == 0 {
        return Err(FixSpecError::InvalidContent(String::from_str("cannot parse integer from empty string")));
    }
    if b.len() == 1 && (b[0] == 43 || b[0] == 45) {
        return Err(FixSpecError::InvalidContent(String::from_str("invalid digit found in string")));
    }
    let start: usize = if b[0] == 43 { 1 } else { 0 };
    let ghost d = if b@[0] == 43 { b@.skip(1) } else { b@ };
    assert(d =~= b@.subrange(start as int, b@.len() as int));
    let mut acc: u64 = 0;
    let mut i: usize = start;
    while i < b.len()
        invariant
            start <= i <= b@.len(),
            b@ == s.spec_bytes(),
            d =~= b@.subrange(start as int, b@.len() as int),
            acc <= max,
            parse_uint(b@, max as nat) == scan_digits(d, (i - start) as int, acc as nat, max as nat),
        decreases b@.len() - i,
    {
        let c = b[i];
        assert(d[(i - start) as int] == c);
        if c < 48 || c > 57 {
            assert(!is_digit_byte(d[(i - start) as int]));
            return Err(FixSpecError::InvalidContent(String::from_str("invalid digit found in string")));
        }
        let digit: u64 = (c - 48) as u64;
        if digit > max || acc > (max - digit) / 10 {
            assert(acc * 10 + digit > max) by (nonlinear_arith)
                requires
                    digit > max || acc > (max - digit) / 10,
                    acc >= 0,
            {
            }
            return Err(FixSpecError::InvalidContent(String::from_str("number too large to fit in target type")));
        }
        assert(acc * 10 + digit <= max) by (nonlinear_arith)
            requires
                acc <= (max - digit) / 10,
                digit <= max,
        {
        }
        acc = acc * 10 + digit;
        i += 1;
    }
    Ok(acc)
}

/// An attribute read as an unsigned number no larger than `max`.
fn read_number_attribute(el: &XmlElement, name: &str, max: u64) -> (r: Result<u64, FixSpecError>)
    ensures
        match attribute_number(el@, name@, max as nat) {
            Ok(n) => r == Ok::<u64, FixSpecError>(n as u64),
            Err(e) => r matches Err(x) && x@ == e,
        },
        r matches Ok(n) ==> n <= max,
        attribute_number(el@, name@, max as nat) matches Ok(n) ==> n <= max,
{
    match read_attribute(el, name) {
        Err(e) => Err(e),
        Ok(t) => parse_number(t.as_str(), max),
    }
}

/// A field, group or component reference element.
fn read_reference(el: &XmlElement) -> (r: Result<(String, bool), FixSpecError>)
    ensures
        match reference_node(el@) {
            Ok((n, b)) => r matches Ok((s, c)) && s@ == n && c == b,
            Err(e) => r matches Err(x) && x@ == e,
        },
{
    let name = match read_attribute(el, "name") {
        Ok(t) => t,
        Err(e) => return Err(e),
    };
    let required = match read_attribute(el, "required") {
        Ok(t) => t,
        Err(e) => return Err(e),
    };
    let y = crate::text::text_eq(required.as_str(), "Y");
    Ok((name, y))
}

/// The root element, its sections still empty.
fn read_fix_node(el: &XmlElement) -> (r: Result<FixSpec, FixSpecError>)
    ensures
        match fix_node(el@) {
            Ok(m) => r matches Ok(s) && fix_spec_view(s) == m,
            Err(e) => r matches Err(x) && x@ == e,
        },
{
    let major = match read_number_attribute(el, "major", 255) {
        Ok(n) => n,
        Err(e) => return Err(e),
    };
    let minor = match read_number_attribute(el, "minor", 255) {
        Ok(n) => n,
        Err(e) => return Err(e),
    };
    let sp = match read_number_attribute(el, "servicepack", 255) {
        Ok(n) => n,
        Err(e) => return Err(e),
    };
    let t = match read_attribute(el, "type") {
        Ok(t) => t,
        Err(e) => return Err(e),
    };
    let is_fixt = crate::text::text_eq(t.as_str(), "FIXT");
    let r = FixSpec {
        version: (major as u8, minor as u8, sp as u8),
        is_fixt,
        headers: Vec::new(),
        messages: Vec::new(),
        trailers: Vec::new(),
        component_specs: Vec::new(),
        field_specs: Vec::new(),
    };
    proof {
        let m = fix_spec_view(r);
        assert(m.headers =~= Seq::<FieldValueModel>::empty());
        assert(m.trailers =~= Seq::<FieldValueModel>::empty());
        assert(m.messages =~= Seq::<MessageSpecModel>::empty());
        assert(m.component_specs =~= Seq::<ComponentSpecModel>::empty());
        assert(m.field_specs =~= Seq::<FieldSpecModel>::empty());
        assert(attribute_number(el@, "major"@, 255) == Ok::<nat, FixSpecErrorView>(major as nat));
        assert(m.version == (major as u8, minor as u8, sp as u8));
        assert(m.is_fixt == (t@ == "FIXT"@));
        assert(fix_node(el@) is Ok);
        assert(fix_node(el@) == Ok::<FixSpecModel, FixSpecErrorView>(m));
    }
    Ok(r)
}

/// A field definition element, its allowed values still empty.
fn read_field_spec_node(el: &XmlElement) -> (r: Result<FieldSpec, FixSpecError>)
    ensures
        match field_spec_node(el@) {
            Ok(m) => r matches Ok(f) && field_spec_model(f) == m,
            Err(e) => r matches Err(x) && x@ == e,
        },
{
    let number = match read_number_attribute(el, "number", 4294967295) {
        Ok(n) => n,
        Err(e) => return Err(e),
    };
    let name = match read_attribute(el, "name") {
        Ok(t) => t,
        Err(e) => return Err(e),
    };
    let t = match read_attribute(el, "type") {
        Ok(t) => t,
        Err(e) => return Err(e),
    };
    let field_type = match parse_field_type(t.as_str()) {
        Ok(ft) => ft,
        Err(e) => return Err(e),
    };
    let f = FieldSpec { number: number as u32, name, field_type, values: Vec::new() };
    proof {
        let m = field_spec_model(f);
        assert(m.values =~= Seq::<(Seq<char>, Seq<char>)>::empty());
        assert(attribute_number(el@, "number"@, u32::MAX as nat) == Ok::<nat, FixSpecErrorView>(number as nat));
        assert(field_spec_node(el@) == Ok::<FieldSpecModel, FixSpecErrorView>(m));
    }
    Ok(f)
}

/// An allowed value element.
fn read_allowed_value(el: &XmlElement) -> (r: Result<FieldAllowedValue, FixSpecError>)
    ensures
        match allowed_value_node(el@) {
            Ok(m) => r matches Ok(v) && allowed_value_model(v) == m,
            Err(e) => r matches Err(x) && x@ == e,
        },
{
    let value = match read_attribute(el, "enum") {
        Ok(t) => t,
        Err(e) => return Err(e),
    };
    let description = match read_attribute(el, "description") {
        Ok(t) => t,
        Err(e) => return Err(e),
    };
    Ok(FieldAllowedValue { value, description })
}

/// A message element, its content still empty.
fn read_message_node(el: &XmlElement) -> (r: Result<Message, FixSpecError>)
    ensures
        match message_node(el@) {
            Ok(m) => r matches Ok(x) && message_spec_model(x) == m,
            Err(e) => r matches Err(x) && x@ == e,
        },
{
    let name = match read_attribute(el, "name") {
        Ok(t) => t,
        Err(e) => return Err(e),
    };
    let msg_type = match read_attribute(el, "msgtype") {
        Ok(t) => t,
        Err(e) => return Err(e),
    };
    let c = match read_attribute(el, "msgcat") {
        Ok(t) => t,
        Err(e) => return Err(e),
    };
    let category = match parse_message_category(c.as_str()) {
        Ok(x) => x,
        Err(e) => return Err(e),
    };
    let m = Message { name, msg_type, category, values: Vec::new() };
    assert(message_spec_model(m).values =~= Seq::<FieldValueModel>::empty());
    Ok(m)
}

/// A component definition element, its content still empty.
fn read_component_node(el: &XmlElement) -> (r: Result<ComponentSpec, FixSpecError>)
    ensures
        match component_node(el@) {
            Ok(m) => r matches Ok(x) && component_spec_model(x) == m,
            Err(e) => r matches Err(x) && x@ == e,
        },
{
    let name = match read_attribute(el, "name") {
        Ok(t) => t,
        Err(e) => return Err(e),
    };
    let c = ComponentSpec { name, values: Vec::new() };
    assert(component_spec_model(c).values =~= Seq::<FieldValueModel>::empty());
    Ok(c)
}

/// The next event, where a read is left and the document goes on.
fn next_event(reader: &mut EventStream, fuel: usize) -> (r: Result<XmlEvent, FixSpecError>)
    requires
        old(reader).wf(),
    ensures
        final(reader).wf(),
        final(reader).source() == old(reader).source(),
        final(reader).position() == old(reader).position() + 1,
        match event_at(old(reader).source(), old(reader).position(), fuel as nat) {
            Ok(e) => r matches Ok(x) && x@ == e,
            Err(e) => r matches Err(x) && x@ == e,
        },
{
    if fuel == 0 {
        let _ = reader.next();
        return Err(FixSpecError::InvalidDocument("too many XML events"));
    }
    match reader.next() {
        Err(m) => Err(FixSpecError::Xml(m)),
        Ok(XmlEvent::Eof) => Err(FixSpecError::InvalidDocument("unexpected end of document")),
        Ok(e) => Ok(e),
    }
}

proof fn lemma_values_push(v: Seq<FieldValue>, x: FieldValue)
    ensures
        field_values_model(v.push(x)) == field_values_model(v).push(field_value_model(x)),
{
    assert(field_values_model(v.push(x)) =~= field_values_model(v).push(field_value_model(x)));
}

/// The field, group and component references up to the end tag `end`, with the
/// reads left.
fn read_values(reader: &mut EventStream, fuel: usize, end: &str) -> (r: Result<(Vec<FieldValue>, usize), FixSpecError>)
    requires
        old(reader).wf(),
    ensures
        final(reader).wf(),
        final(reader).source() == old(reader).source(),
        match values_from(
            old(reader).source(),
            old(reader).position(),
            fuel as nat,
            end.spec_bytes(),
            Seq::empty(),
        ) {
            Ok((vs, k, f)) => r matches Ok((v, g)) && field_values_model(v@) == vs && final(reader).position() == k
                && g == f,
            Err(e) => r matches Err(x) && x@ == e,
        },
        r matches Ok((_, g)) ==> g < fuel,
    decreases fuel,
{
    let ghost input = reader.source();
    let ghost k0 = reader.position();
    let ghost end_b = end.spec_bytes();
    let mut acc: Vec<FieldValue> = Vec::new();
    let mut f: usize = fuel;
    assert(field_values_model(acc@) =~= Seq::<FieldValueModel>::empty());
    loop
        invariant
            reader.wf(),
            reader.source() == input,
            input == old(reader).source(),
            k0 == old(reader).position(),
            f <= fuel,
            end_b == end.spec_bytes(),
            values_from(input, k0, fuel as nat, end_b, Seq::empty()) == values_from(
                input,
                reader.position(),
                f as nat,
                end_b,
                field_values_model(acc@),
            ),
        decreases f,
    {
        let ghost k = reader.position();
        let ghost accm = field_values_model(acc@);
        let ev = match next_event(reader, f) {
            Ok(e) => e,
            Err(e) => return Err(e),
        };
        let f1 = f - 1;
        let el = match ev {
            XmlEvent::Start(el) => el,
            XmlEvent::Empty(el) => el,
            XmlEvent::End(n) => {
                if bytes_are(n.as_slice(), end) {
                    return Ok((acc, f1));
                }
                f = f1;
                continue;
            },
            _ => {
                f = f1;
                continue;
            },
        };
        if bytes_are(el.name.as_slice(), "field") {
            let (name, required) = match read_reference(&el) {
                Ok(x) => x,
                Err(e) => return Err(e),
            };
            let x = FieldValue::Field(Field { name, required });
            proof {
                lemma_values_push(acc@, x);
            }
            acc.push(x);
            f = f1;
        } else if bytes_are(el.name.as_slice(), "group") {
            let (name, required) = match read_reference(&el) {
                Ok(x) => x,
                Err(e) => return Err(e),
            };
            let (values, f2) = match read_values(reader, f1, "group") {
                Ok(x) => x,
                Err(e) => return Err(e),
            };
            let g = Group { name, required, values };
            proof {
                lemma_group_model(g);
                lemma_values_push(acc@, FieldValue::Group(g));
            }
            acc.push(FieldValue::Group(g));
            f = f2;
        } else if bytes_are(el.name.as_slice(), "component") {
            let (name, required) = match read_reference(&el) {
                Ok(x) => x,
                Err(e) => return Err(e),
            };
            let x = FieldValue::Component(Component { name, required });
            proof {
                lemma_values_push(acc@, x);
            }
            acc.push(x);
            f = f1;
        } else {
            f = f1;
        }
    }
}

/// The allowed values of a field definition, up to `</field>`, with the reads
/// left.
fn read_allowed_values(reader: &mut EventStream, fuel: usize) -> (r: Result<(Vec<FieldAllowedValue>, usize), FixSpecError>)
    requires
        old(reader).wf(),
    ensures
        final(reader).wf(),
        final(reader).source() == old(reader).source(),
        match allowed_values_from(old(reader).source(), old(reader).position(), fuel as nat, Seq::empty()) {
            Ok((vs, k, f)) => r matches Ok((v, g)) && v@.map_values(|a: FieldAllowedValue| allowed_value_model(a)) == vs
                && final(reader).position() == k && g == f,
            Err(e) => r matches Err(x) && x@ == e,
        },
        r matches Ok((_, g)) ==> g < fuel,
{
    let ghost input = reader.source();
    let ghost k0 = reader.position();
    let mut acc: Vec<FieldAllowedValue> = Vec::new();
    let mut f: usize = fuel;
    assert(acc@.map_values(|a: FieldAllowedValue| allowed_value_model(a)) =~= Seq::<(Seq<char>, Seq<char>)>::empty());
    loop
        invariant
            reader.wf(),
            reader.source() == input,
            input == old(reader).source(),
            k0 == old(reader).position(),
            f <= fuel,
            allowed_values_from(input, k0, fuel as nat, Seq::empty()) == allowed_values_from(
                input,
                reader.position(),
                f as nat,
                acc@.map_values(|a: FieldAllowedValue| allowed_value_model(a)),
            ),
        decreases f,
    {
        let ev = match next_event(reader, f) {
            Ok(e) => e,
            Err(e) => return Err(e),
        };
        let f1 = f - 1;
        let el = match ev {
            XmlEvent::Start(el) => el,
            XmlEvent::Empty(el) => el,
            XmlEvent::End(n) => {
                if bytes_are(n.as_slice(), "field") {
                    return Ok((acc, f1));
                }
                f = f1;
                continue;
            },
            _ => {
                f = f1;
                continue;
            },
        };
        if bytes_are(el.name.as_slice(), "value") {
            let v = match read_allowed_value(&el) {
                Ok(x) => x,
                Err(e) => return Err(e),
            };
            proof {
                assert(acc@.push(v).map_values(|a: FieldAllowedValue| allowed_value_model(a)) =~= acc@.map_values(
                    |a: FieldAllowedValue| allowed_value_model(a),
                ).push(allowed_value_model(v)));
            }
            acc.push(v);
        }
        f = f1;
    }
}

/// The field definitions of the `fields` section, up to `</fields>`, with the
/// reads left.
fn read_field_specs(reader: &mut EventStream, fuel: usize) -> (r: Result<(Vec<FieldSpec>, usize), FixSpecError>)
    requires
        old(reader).wf(),
    ensures
        final(reader).wf(),
        final(reader).source() == old(reader).source(),
        match field_specs_from(old(reader).source(), old(reader).position(), fuel as nat, Seq::empty()) {
            Ok((vs, k, f)) => r matches Ok((v, g)) && v@.map_values(|x: FieldSpec| field_spec_model(x)) == vs
                && final(reader).position() == k && g == f,
            Err(e) => r matches Err(x) && x@ == e,
        },
        r matches Ok((_, g)) ==> g < fuel,
{
    let ghost input = reader.source();
    let ghost k0 = reader.position();
    let mut acc: Vec<FieldSpec> = Vec::new();
    let mut f: usize = fuel;
    assert(acc@.map_values(|x: FieldSpec| field_spec_model(x)) =~= Seq::<FieldSpecModel>::empty());
    loop
        invariant
            reader.wf(),
            reader.source() == input,
            input == old(reader).source(),
            k0 == old(reader).position(),
            f <= fuel,
            field_specs_from(input, k0, fuel as nat, Seq::empty()) == field_specs_from(
                input,
                reader.position(),
                f as nat,
                acc@.map_values(|x: FieldSpec| field_spec_model(x)),
            ),
        decreases f,
    {
        let ghost accm = acc@.map_values(|x: FieldSpec| field_spec_model(x));
        let ev = match next_event(reader, f) {
            Ok(e) => e,
            Err(e) => return Err(e),
        };
        let f1 = f - 1;
        match ev {
            XmlEvent::Start(el) => {
                if bytes_are(el.name.as_slice(), "field") {
                    let mut fs = match read_field_spec_node(&el) {
                        Ok(x) => x,
                        Err(e) => return Err(e),
                    };
                    let (values, f2) = match read_allowed_values(reader, f1) {
                        Ok(x) => x,
                        Err(e) => return Err(e),
                    };
                    fs.values = values;
                    proof {
                        assert(acc@.push(fs).map_values(|x: FieldSpec| field_spec_model(x)) =~= accm.push(
                            field_spec_model(fs),
                        ));
                    }
                    acc.push(fs);
                    f = f2;
                } else {
                    f = f1;
                }
            },
            XmlEvent::Empty(el) => {
                if bytes_are(el.name.as_slice(), "field") {
                    let fs = match read_field_spec_node(&el) {
                        Ok(x) => x,
                        Err(e) => return Err(e),
                    };
                    proof {
                        assert(acc@.push(fs).map_values(|x: FieldSpec| field_spec_model(x)) =~= accm.push(
                            field_spec_model(fs),
                        ));
                    }
                    acc.push(fs);
                }
                f = f1;
            },
            XmlEvent::End(n) => {
                if bytes_are(n.as_slice(), "fields") {
                    return Ok((acc, f1));
                }
                f = f1;
            },
            _ => {
                f = f1;
            },
        }
    }
}

/// The message definitions of the `messages` section, up to `</messages>`, with the reads left.
fn read_messages(reader: &mut EventStream, fuel: usize) -> (r: Result<(Vec<Message>, usize), FixSpecError>)
    requires
        old(reader).wf(),
    ensures
        final(reader).wf(),
        final(reader).source() == old(reader).source(),
        match messages_from(old(reader).source(), old(reader).position(), fuel as nat, Seq::empty()) {
            Ok((vs, k, f)) => r matches Ok((v, g)) && v@.map_values(|x: Message| message_spec_model(x)) == vs
                && final(reader).position() == k && g == f,
            Err(e) => r matches Err(x) && x@ == e,
        },
        r matches Ok((_, g)) ==> g < fuel,
{
    let ghost input = reader.source();
    let ghost k0 = reader.position();
    let mut acc: Vec<Message> = Vec::new();
    let mut f: usize = fuel;
    assert(acc@.map_values(|x: Message| message_spec_model(x)) =~= Seq::<MessageSpecModel>::empty());
    loop
        invariant
            reader.wf(),
            reader.source() == input,
            input == old(reader).source(),
            k0 == old(reader).position(),
            f <= fuel,
            messages_from(input, k0, fuel as nat, Seq::empty()) == messages_from(
                input,
                reader.position(),
                f as nat,
                acc@.map_values(|x: Message| message_spec_model(x)),
            ),
        decreases f,
    {
        let ghost accm = acc@.map_values(|x: Message| message_spec_model(x));
        let ev = match next_event(reader, f) {
            Ok(e) => e,
            Err(e) => return Err(e),
        };
        let f1 = f - 1;
        match ev {
            XmlEvent::Start(el) => {
                if bytes_are(el.name.as_slice(), "message") {
                    let mut item = match read_message_node(&el) {
                        Ok(x) => x,
                        Err(e) => return Err(e),
                    };
                    let (values, f2) = match read_values(reader, f1, "message") {
                        Ok(x) => x,
                        Err(e) => return Err(e),
                    };
                    item.values = values;
                    proof {
                        assert(acc@.push(item).map_values(|x: Message| message_spec_model(x)) =~= accm.push(message_spec_model(item)));
                    }
                    acc.push(item);
                    f = f2;
                } else {
                    f = f1;
                }
            },
            XmlEvent::Empty(el) => {
                if bytes_are(el.name.as_slice(), "message") {
                    let item = match read_message_node(&el) {
                        Ok(x) => x,
                        Err(e) => return Err(e),
                    };
                    proof {
                        assert(acc@.push(item).map_values(|x: Message| message_spec_model(x)) =~= accm.push(message_spec_model(item)));
                    }
                    acc.push(item);
                }
                f = f1;
            },
            XmlEvent::End(n) => {
                if bytes_are(n.as_slice(), "messages") {
                    return Ok((acc, f1));
                }
                f = f1;
            },
            _ => {
                f = f1;
            },
        }
    }
}

/// The component definitions of the `components` section, up to `</components>`, with the reads left.
fn read_components(reader: &mut EventStream, fuel: usize) -> (r: Result<(Vec<ComponentSpec>, usize), FixSpecError>)
    requires
        old(reader).wf(),
    ensures
        final(reader).wf(),
        final(reader).source() == old(reader).source(),
        match components_from(old(reader).source(), old(reader).position(), fuel as nat, Seq::empty()) {
            Ok((vs, k, f)) => r matches Ok((v, g)) && v@.map_values(|x: ComponentSpec| component_spec_model(x)) == vs
                && final(reader).position() == k && g == f,
            Err(e) => r matches Err(x) && x@ == e,
        },
        r matches Ok((_, g)) ==> g < fuel,
{
    let ghost input = reader.source();
    let ghost k0 = reader.position();
    let mut acc: Vec<ComponentSpec> = Vec::new();
    let mut f: usize = fuel;
    assert(acc@.map_values(|x: ComponentSpec| component_spec_model(x)) =~= Seq::<ComponentSpecModel>::empty());
    loop
        invariant
            reader.wf(),
            reader.source() == input,
            input == old(reader).source(),
            k0 == old(reader).position(),
            f <= fuel,
            components_from(input, k0, fuel as nat, Seq::empty()) == components_from(
                input,
                reader.position(),
                f as nat,
                acc@.map_values(|x: ComponentSpec| component_spec_model(x)),
            ),
        decreases f,
    {
        let ghost accm = acc@.map_values(|x: ComponentSpec| component_spec_model(x));
        let ev = match next_event(reader, f) {
            Ok(e) => e,
            Err(e) => return Err(e),
        };
        let f1 = f - 1;
        match ev {
            XmlEvent::Start(el) => {
                if bytes_are(el.name.as_slice(), "component") {
                    let mut item = match read_component_node(&el) {
                        Ok(x) => x,
                        Err(e) => return Err(e),
                    };
                    let (values, f2) = match read_values(reader, f1, "component") {
                        Ok(x) => x,
                        Err(e) => return Err(e),
                    };
                    item.values = values;
                    proof {
                        assert(acc@.push(item).map_values(|x: ComponentSpec| component_spec_model(x)) =~= accm.push(component_spec_model(item)));
                    }
                    acc.push(item);
                    f = f2;
                } else {
                    f = f1;
                }
            },
            XmlEvent::Empty(el) => {
                if bytes_are(el.name.as_slice(), "component") {
                    let item = match read_component_node(&el) {
                        Ok(x) => x,
                        Err(e) => return Err(e),
                    };
                    proof {
                        assert(acc@.push(item).map_values(|x: ComponentSpec| component_spec_model(x)) =~= accm.push(component_spec_model(item)));
                    }
                    acc.push(item);
                }
                f = f1;
            },
            XmlEvent::End(n) => {
                if bytes_are(n.as_slice(), "components") {
                    return Ok((acc, f1));
                }
                f = f1;
            },
            _ => {
                f = f1;
            },
        }
    }
}

/// The sections of the root element, up to `</fix>`.
#[verifier::spinoff_prover]
#[verifier::rlimit(80)]
fn read_fix_body(reader: &mut EventStream, fuel: usize, spec: FixSpec) -> (r: Result<FixSpec, FixSpecError>)
    requires
        old(reader).wf(),
    ensures
        match fix_body_from(old(reader).source(), old(reader).position(), fuel as nat, fix_spec_view(spec)) {
            Ok((m, _, _)) => r matches Ok(s) && fix_spec_view(s) == m,
            Err(e) => r matches Err(x) && x@ == e,
        },
{
    let ghost input = reader.source();
    let ghost k0 = reader.position();
    let ghost m0 = fix_spec_view(spec);
    let mut s = spec;
    let mut f: usize = fuel;
    loop
        invariant
            reader.wf(),
            reader.source() == input,
            input == old(reader).source(),
            k0 == old(reader).position(),
            m0 == fix_spec_view(spec),
            fix_body_from(input, k0, fuel as nat, m0) == fix_body_from(
                input,
                reader.position(),
                f as nat,
                fix_spec_view(s),
            ),
        decreases f,
    {
        let ghost m = fix_spec_view(s);
        let ev = match next_event(reader, f) {
            Ok(e) => e,
            Err(e) => return Err(e),
        };
        let f1 = f - 1;
        match ev {
            XmlEvent::Start(el) => {
                if bytes_are(el.name.as_slice(), "header") {
                    let (vs, f2) = match read_values(reader, f1, "header") {
                        Ok(x) => x,
                        Err(e) => return Err(e),
                    };
                    s.headers = vs;
                    assert(fix_spec_view(s) == FixSpecModel { headers: field_values_model(s.headers@), ..m });
                    f = f2;
                } else if bytes_are(el.name.as_slice(), "messages") {
                    let (ms, f2) = match read_messages(reader, f1) {
                        Ok(x) => x,
                        Err(e) => return Err(e),
                    };
                    s.messages = ms;
                    assert(fix_spec_view(s) == FixSpecModel {
                        messages: s.messages@.map_values(|x: Message| message_spec_model(x)),
                        ..m
                    });
                    f = f2;
                } else if bytes_are(el.name.as_slice(), "trailer") {
                    let (vs, f2) = match read_values(reader, f1, "trailer") {
                        Ok(x) => x,
                        Err(e) => return Err(e),
                    };
                    s.trailers = vs;
                    assert(fix_spec_view(s) == FixSpecModel { trailers: field_values_model(s.trailers@), ..m });
                    f = f2;
                } else if bytes_are(el.name.as_slice(), "components") {
                    let (cs, f2) = match read_components(reader, f1) {
                        Ok(x) => x,
                        Err(e) => return Err(e),
                    };
                    s.component_specs = cs;
                    assert(fix_spec_view(s) == FixSpecModel {
                        component_specs: s.component_specs@.map_values(|x: ComponentSpec| component_spec_model(x)),
                        ..m
                    });
                    f = f2;
                } else if bytes_are(el.name.as_slice(), "fields") {
                    let (fs, f2) = match read_field_specs(reader, f1) {
                        Ok(x) => x,
                        Err(e) => return Err(e),
                    };
                    s.field_specs = fs;
                    assert(fix_spec_view(s) == FixSpecModel {
                        field_specs: s.field_specs@.map_values(|x: FieldSpec| field_spec_model(x)),
                        ..m
                    });
                    f = f2;
                } else {
                    f = f1;
                }
            },
            XmlEvent::End(n) => {
                if bytes_are(n.as_slice(), "fix") {
                    return Ok(s);
                }
                f = f1;
            },
            _ => {
                f = f1;
            },
        }
    }
}

/// Reads a specification from a stream of events that has handed out none yet,
/// with `fuel` reads allowed after the first.
fn read_spec(reader: &mut EventStream, fuel: usize) -> (r: Result<FixSpec, FixSpecError>)
    requires
        old(reader).wf(),
        old(reader).position() == 0,
    ensures
        match parsed_from(old(reader).source(), fuel as nat) {
            Ok(m) => r matches Ok(s) && fix_spec_view(s) == m,
            Err(e) => r matches Err(x) && x@ == e,
        },
{
    match reader.next() {
        Err(m) => Err(FixSpecError::Xml(m)),
        Ok(XmlEvent::Start(el)) => {
            if bytes_are(el.name.as_slice(), "fix") {
                let s = match read_fix_node(&el) {
                    Ok(s) => s,
                    Err(e) => return Err(e),
                };
                read_fix_body(reader, fuel, s)
            } else {
                Err(FixSpecError::InvalidDocument("invalid root"))
            }
        },
        _ => Err(FixSpecError::InvalidDocument("invalid root")),
    }
}

/// Reads a FIX XML dictionary: the root must be a `fix` element with `major`,
/// `minor`, `servicepack` and `type` attributes; its `header`, `messages`,
/// `trailer`, `components` and `fields` sections are read into the
/// specification.
pub fn parse_spec(input: &[u8]) -> (r: Result<FixSpec, FixSpecError>)
    ensures
        match parsed_spec(input@) {
            Ok(m) => r matches Ok(s) && fix_spec_view(s) == m,
            Err(e) => r matches Err(x) && x@ == e,
        },
{
    let mut reader = EventStream::of_document(input);
    read_spec(&mut reader, input.len())
}

/// Reads a specification from the events a reader handed out (each an event or
/// the reader's error text), the document ending after them: the reading
/// `parse_spec` does on a document's events.
pub fn parse_events(events: &[Result<XmlEvent, String>]) -> (r: Result<FixSpec, FixSpecError>)
    ensures
        match parsed_events(reads_view(events@)) {
            Ok(m) => r matches Ok(s) && fix_spec_view(s) == m,
            Err(e) => r matches Err(x) && x@ == e,
        },
{
    let mut reader = EventStream::of_events(events);
    read_spec(&mut reader, events.len())
}

// ---------------------------------------------------------------------------
// Writing
// ---------------------------------------------------------------------------

/// A tag with its name and attributes.
pub open spec fn tag_of(name: Seq<char>, attributes: Seq<(Seq<char>, Seq<char>)>) -> XmlTagView {
    XmlTagView { name, attributes }
}

/// How `required` is written.
pub open spec fn yes_no(b: bool) -> Seq<char> {
    if b {
        "Y"@
    } else {
        "N"@
    }
}

/// The events of a field, group or component reference: an empty element, or a
/// group element around the events of its references.
pub open spec fn value_events(v: FieldValueModel) -> Seq<XmlOutputView>
    decreases v,
{
    match v {
        FieldValueModel::Field(n, r) => seq![
            XmlOutputView::Empty(tag_of("field"@, seq![("name"@, n), ("required"@, yes_no(r))])),
        ],
        FieldValueModel::Group(n, r, vs) => seq![
            XmlOutputView::Start(tag_of("group"@, seq![("name"@, n), ("required"@, yes_no(r))])),
        ] + values_events(vs) + seq![XmlOutputView::End("group"@)],
        FieldValueModel::Component(n, r) => seq![
            XmlOutputView::Empty(tag_of("component"@, seq![("name"@, n), ("required"@, yes_no(r))])),
        ],
    }
}

/// The events of a list of references, one after the other.
pub open spec fn values_events(vs: Seq<FieldValueModel>) -> Seq<XmlOutputView>
    decreases vs,
{
    if vs.len() == 0 {
        Seq::empty()
    } else {
        values_events(vs.drop_last()) + value_events(vs.last())
    }
}

/// The events of the items of a list, one after the other.
pub open spec fn concat_events<T>(s: Seq<T>, f: spec_fn(T) -> Seq<XmlOutputView>) -> Seq<XmlOutputView>
    decreases s.len(),
{
    if s.len() == 0 {
        Seq::empty()
    } else {
        concat_events(s.drop_last(), f) + f(s.last())
    }
}

/// The event of an allowed value: an empty `value` element.
pub open spec fn allowed_value_events(v: (Seq<char>, Seq<char>)) -> Seq<XmlOutputView> {
    seq![XmlOutputView::Empty(tag_of("value"@, seq![("enum"@, v.0), ("description"@, v.1)]))]
}

/// An element around some events, or an empty element where there are none.
pub open spec fn element_events(t: XmlTagView, has_content: bool, inner: Seq<XmlOutputView>) -> Seq<XmlOutputView> {
    if has_content {
        seq![XmlOutputView::Start(t)] + inner + seq![XmlOutputView::End(t.name)]
    } else {
        seq![XmlOutputView::Empty(t)]
    }
}

/// The events of a field definition.
pub open spec fn field_spec_events(f: FieldSpecModel) -> Seq<XmlOutputView> {
    element_events(
        tag_of(
            "field"@,
            seq![("number"@, decimal_digits(f.number as nat)), ("name"@, f.name), ("type"@, field_type_name(f.field_type))],
        ),
        f.values.len() > 0,
        concat_events(f.values, |v: (Seq<char>, Seq<char>)| allowed_value_events(v)),
    )
}

/// The events of a message definition.
pub open spec fn message_events(m: MessageSpecModel) -> Seq<XmlOutputView> {
    element_events(
        tag_of(
            "message"@,
            seq![("name"@, m.name), ("msgtype"@, m.msg_type), ("msgcat"@, message_category_name(m.category))],
        ),
        m.values.len() > 0,
        values_events(m.values),
    )
}

/// The events of a component definition.
pub open spec fn component_spec_events(c: ComponentSpecModel) -> Seq<XmlOutputView> {
    element_events(tag_of("component"@, seq![("name"@, c.name)]), c.values.len() > 0, values_events(c.values))
}

/// The events of a whole specification: the `fix` element with its type and
/// version, around the `header`, `messages`, `trailer`, `components` and `fields`
/// sections.
pub open spec fn fix_events(s: FixSpecModel) -> Seq<XmlOutputView> {
    seq![
        XmlOutputView::Start(
            tag_of(
                "fix"@,
                seq![
                    ("type"@, if s.is_fixt { "FIXT"@ } else { "FIX"@ }),
                    ("major"@, decimal_digits(s.version.0 as nat)),
                    ("minor"@, decimal_digits(s.version.1 as nat)),
                    ("servicepack"@, decimal_digits(s.version.2 as nat)),
                ],
            ),
        ),
    ] + element_events(tag_of("header"@, seq![]), s.headers.len() > 0, values_events(s.headers))
        + element_events(
        tag_of("messages"@, seq![]),
        s.messages.len() > 0,
        concat_events(s.messages, |m: MessageSpecModel| message_events(m)),
    ) + element_events(tag_of("trailer"@, seq![]), s.trailers.len() > 0, values_events(s.trailers))
        + element_events(
        tag_of("components"@, seq![]),
        s.component_specs.len() > 0,
        concat_events(s.component_specs, |c: ComponentSpecModel| component_spec_events(c)),
    ) + element_events(
        tag_of("fields"@, seq![]),
        s.field_specs.len() > 0,
        concat_events(s.field_specs, |f: FieldSpecModel| field_spec_events(f)),
    ) + seq![XmlOutputView::End("fix"@)]
}

/// A tag without attributes.
fn tag0(name: &str) -> (r: XmlTag)
    ensures
        r@ == tag_of(name@, seq![]),
{
    let t = XmlTag { name: String::from_str(name), attributes: Vec::new() };
    assert(t@.attributes =~= Seq::<(Seq<char>, Seq<char>)>::empty());
    t
}

/// A tag with one attribute.
fn tag1(name: &str, k1: &str, v1: String) -> (r: XmlTag)
    ensures
        r@ == tag_of(name@, seq![(k1@, v1@)]),
{
    let mut attributes = Vec::new();
    attributes.push((String::from_str(k1), v1));
    let t = XmlTag { name: String::from_str(name), attributes };
    assert(t@.attributes =~= seq![(k1@, v1@)]);
    t
}

/// A tag with two attributes.
fn tag2(name: &str, k1: &str, v1: String, k2: &str, v2: String) -> (r: XmlTag)
    ensures
        r@ == tag_of(name@, seq![(k1@, v1@), (k2@, v2@)]),
{
    let mut attributes = Vec::new();
    attributes.push((String::from_str(k1), v1));
    attributes.push((String::from_str(k2), v2));
    let t = XmlTag { name: String::from_str(name), attributes };
    assert(t@.attributes =~= seq![(k1@, v1@), (k2@, v2@)]);
    t
}

/// A tag with three attributes.
fn tag3(name: &str, k1: &str, v1: String, k2: &str, v2: String, k3: &str, v3: String) -> (r: XmlTag)
    ensures
        r@ == tag_of(name@, seq![(k1@, v1@), (k2@, v2@), (k3@, v3@)]),
{
    let mut attributes = Vec::new();
    attributes.push((String::from_str(k1), v1));
    attributes.push((String::from_str(k2), v2));
    attributes.push((String::from_str(k3), v3));
    let t = XmlTag { name: String::from_str(name), attributes };
    assert(t@.attributes =~= seq![(k1@, v1@), (k2@, v2@), (k3@, v3@)]);
    t
}

/// How `required` is written.
fn yes_no_text(b: bool) -> (r: String)
    ensures
        r@ == yes_no(b),
{
    if b {
        String::from_str("Y")
    } else {
        String::from_str("N")
    }
}

/// Writes one event.
fn write_one(writer: &mut Writer<Vec<u8>>, e: XmlOutput) -> (r: Result<(), std::io::Error>)
    ensures
        r is Ok,
        writer_events(*final(writer)) == writer_events(*old(writer)).push(e@),
{
    write_event(writer, &e)
}

/// Writes a field, group or component reference.
fn write_value(writer: &mut Writer<Vec<u8>>, v: &FieldValue) -> (r: Result<(), std::io::Error>)
    ensures
        r is Ok,
        writer_events(*final(writer)) == writer_events(*old(writer)) + value_events(field_value_model(*v)),
    decreases *v, 0nat,
{
    match v {
        FieldValue::Field(f) => {
            let t = tag2("field", "name", f.name.clone(), "required", yes_no_text(f.required));
            let r = write_one(writer, XmlOutput::Empty(t));
            assert(seq![XmlOutputView::Empty(t@)] =~= value_events(field_value_model(*v)));
            r
        },
        FieldValue::Group(g) => {
            proof {
                lemma_group_model(*g);
            }
            let ghost before = writer_events(*writer);
            let t = tag2("group", "name", g.name.clone(), "required", yes_no_text(g.required));
            let ghost tv = t@;
            write_one(writer, XmlOutput::Start(t))?;
            write_values(writer, &g.values)?;
            let r = write_one(writer, XmlOutput::End(String::from_str("group")));
            assert(before.push(XmlOutputView::Start(tv)) + values_events(field_values_model(g.values@)) + seq![
                XmlOutputView::End("group"@),
            ] =~= before.push(XmlOutputView::Start(tv)).add(values_events(field_values_model(g.values@))).push(
                XmlOutputView::End("group"@),
            ));
            assert(before + value_events(field_value_model(*v)) =~= before.push(XmlOutputView::Start(tv)).add(
                values_events(field_values_model(g.values@)),
            ).push(XmlOutputView::End("group"@)));
            r
        },
        FieldValue::Component(c) => {
            let t = tag2("component", "name", c.name.clone(), "required", yes_no_text(c.required));
            let r = write_one(writer, XmlOutput::Empty(t));
            assert(seq![XmlOutputView::Empty(t@)] =~= value_events(field_value_model(*v)));
            r
        },
    }
}

/// Writes a list of references, one after the other.
fn write_values(writer: &mut Writer<Vec<u8>>, vals: &Vec<FieldValue>) -> (r: Result<(), std::io::Error>)
    ensures
        r is Ok,
        writer_events(*final(writer)) == writer_events(*old(writer)) + values_events(field_values_model(vals@)),
    decreases vals@, vals@.len(),
{
    let ghost before = writer_events(*writer);
    let ghost ms = field_values_model(vals@);
    let mut i: usize = 0;
    assert(ms.take(0) =~= Seq::<FieldValueModel>::empty());
    assert(before + values_events(ms.take(0)) =~= before);
    while i < vals.len()
        invariant
            i <= vals@.len(),
            ms == field_values_model(vals@),
            writer_events(*writer) == before + values_events(ms.take(i as int)),
        decreases vals@.len() - i,
    {
        assert(decreases_to!(vals@ => vals@[i as int]));
        let ghost mid = writer_events(*writer);
        write_value(writer, &vals[i])?;
        proof {
            let t = ms.take(i + 1);
            assert(t.drop_last() =~= ms.take(i as int));
            assert(t.last() == field_value_model(vals@[i as int]));
            assert(values_events(t) == values_events(t.drop_last()) + value_events(t.last()));
            assert(writer_events(*writer) =~= before + values_events(t));
        }
        i += 1;
    }
    assert(ms.take(i as int) =~= ms);
    Ok(())
}

/// Writes an allowed value.
fn write_allowed_value(writer: &mut Writer<Vec<u8>>, v: &FieldAllowedValue) -> (r: Result<(), std::io::Error>)
    ensures
        r is Ok,
        writer_events(*final(writer)) == writer_events(*old(writer)) + allowed_value_events(
            allowed_value_model(*v),
        ),
{
    let t = tag2("value", "enum", v.value.clone(), "description", v.description.clone());
    let ghost tv = t@;
    let r = write_one(writer, XmlOutput::Empty(t));
    assert(seq![XmlOutputView::Empty(tv)] =~= allowed_value_events(allowed_value_model(*v)));
    r
}

/// Writes allowed values, one after the other.
fn write_allowed_values(writer: &mut Writer<Vec<u8>>, items: &Vec<FieldAllowedValue>) -> (r: Result<(), std::io::Error>)
    ensures
        r is Ok,
        writer_events(*final(writer)) == writer_events(*old(writer)) + concat_events(
            items@.map_values(|x: FieldAllowedValue| allowed_value_model(x)),
            |m: (Seq<char>, Seq<char>)| allowed_value_events(m),
        ),
{
    let ghost before = writer_events(*writer);
    let ghost ms = items@.map_values(|x: FieldAllowedValue| allowed_value_model(x));
    let ghost f = |m: (Seq<char>, Seq<char>)| allowed_value_events(m);
    let mut i: usize = 0;
    assert(ms.take(0) =~= Seq::<(Seq<char>, Seq<char>)>::empty());
    assert(before + concat_events(ms.take(0), f) =~= before);
    while i < items.len()
        invariant
            i <= items@.len(),
            ms == items@.map_values(|x: FieldAllowedValue| allowed_value_model(x)),
            f == (|m: (Seq<char>, Seq<char>)| allowed_value_events(m)),
            writer_events(*writer) == before + concat_events(ms.take(i as int), f),
        decreases items@.len() - i,
    {
        write_allowed_value(writer, &items[i])?;
        proof {
            let t = ms.take(i + 1);
            assert(t.drop_last() =~= ms.take(i as int));
            assert(t.last() == allowed_value_model(items@[i as int]));
            assert(concat_events(t, f) == concat_events(t.drop_last(), f) + f(t.last()));
            assert(writer_events(*writer) =~= before + concat_events(t, f));
        }
        i += 1;
    }
    assert(ms.take(i as int) =~= ms);
    Ok(())
}

/// Writes a field definition: an empty element, or one around its allowed
/// values.
fn write_field_spec(writer: &mut Writer<Vec<u8>>, f: &FieldSpec) -> (r: Result<(), std::io::Error>)
    ensures
        r is Ok,
        writer_events(*final(writer)) == writer_events(*old(writer)) + field_spec_events(field_spec_model(*f)),
{
    let ghost before = writer_events(*writer);
    let t = tag3(
        "field",
        "number",
        u32_to_decimal(f.number),
        "name",
        f.name.clone(),
        "type",
        String::from_str(f.field_type.as_static_str()),
    );
    let ghost tv = t@;
    let ghost inner = concat_events(
        f.values@.map_values(|x: FieldAllowedValue| allowed_value_model(x)),
        |m: (Seq<char>, Seq<char>)| allowed_value_events(m),
    );
    if f.values.len() == 0 {
        let r = write_one(writer, XmlOutput::Empty(t));
        assert(before.push(XmlOutputView::Empty(tv)) =~= before + field_spec_events(field_spec_model(*f)));
        r
    } else {
        write_one(writer, XmlOutput::Start(t))?;
        write_allowed_values(writer, &f.values)?;
        let r = write_one(writer, XmlOutput::End(String::from_str("field")));
        assert(before.push(XmlOutputView::Start(tv)).add(inner).push(XmlOutputView::End("field"@)) =~= before
            + field_spec_events(field_spec_model(*f)));
        r
    }
}

/// Writes field definitions, one after the other.
fn write_field_specs(writer: &mut Writer<Vec<u8>>, items: &Vec<FieldSpec>) -> (r: Result<(), std::io::Error>)
    ensures
        r is Ok,
        writer_events(*final(writer)) == writer_events(*old(writer)) + concat_events(
            items@.map_values(|x: FieldSpec| field_spec_model(x)),
            |m: FieldSpecModel| field_spec_events(m),
        ),
{
    let ghost before = writer_events(*writer);
    let ghost ms = items@.map_values(|x: FieldSpec| field_spec_model(x));
    let ghost f = |m: FieldSpecModel| field_spec_events(m);
    let mut i: usize = 0;
    assert(ms.take(0) =~= Seq::<FieldSpecModel>::empty());
    assert(before + concat_events(ms.take(0), f) =~= before);
    while i < items.len()
        invariant
            i <= items@.len(),
            ms == items@.map_values(|x: FieldSpec| field_spec_model(x)),
            f == (|m: FieldSpecModel| field_spec_events(m)),
            writer_events(*writer) == before + concat_events(ms.take(i as int), f),
        decreases items@.len() - i,
    {
        write_field_spec(writer, &items[i])?;
        proof {
            let t = ms.take(i + 1);
            assert(t.drop_last() =~= ms.take(i as int));
            assert(t.last() == field_spec_model(items@[i as int]));
            assert(concat_events(t, f) == concat_events(t.drop_last(), f) + f(t.last()));
            assert(writer_events(*writer) =~= before + concat_events(t, f));
        }
        i += 1;
    }
    assert(ms.take(i as int) =~= ms);
    Ok(())
}

/// Writes a message definition: an empty element, or one around its
/// references.
fn write_message(writer: &mut Writer<Vec<u8>>, m: &Message) -> (r: Result<(), std::io::Error>)
    ensures
        r is Ok,
        writer_events(*final(writer)) == writer_events(*old(writer)) + message_events(message_spec_model(*m)),
{
    let ghost before = writer_events(*writer);
    let t = tag3(
        "message",
        "name",
        m.name.clone(),
        "msgtype",
        m.msg_type.clone(),
        "msgcat",
        String::from_str(m.category.as_static_str()),
    );
    let ghost tv = t@;
    if m.values.len() == 0 {
        let r = write_one(writer, XmlOutput::Empty(t));
        assert(before.push(XmlOutputView::Empty(tv)) =~= before + message_events(message_spec_model(*m)));
        r
    } else {
        write_one(writer, XmlOutput::Start(t))?;
        write_values(writer, &m.values)?;
        let r = write_one(writer, XmlOutput::End(String::from_str("message")));
        assert(before.push(XmlOutputView::Start(tv)).add(values_events(field_values_model(m.values@))).push(
            XmlOutputView::End("message"@),
        ) =~= before + message_events(message_spec_model(*m)));
        r
    }
}

/// Writes message definitions, one after the other.
fn write_messages(writer: &mut Writer<Vec<u8>>, items: &Vec<Message>) -> (r: Result<(), std::io::Error>)
    ensures
        r is Ok,
        writer_events(*final(writer)) == writer_events(*old(writer)) + concat_events(
            items@.map_values(|x: Message| message_spec_model(x)),
            |m: MessageSpecModel| message_events(m),
        ),
{
    let ghost before = writer_events(*writer);
    let ghost ms = items@.map_values(|x: Message| message_spec_model(x));
    let ghost f = |m: MessageSpecModel| message_events(m);
    let mut i: usize = 0;
    assert(ms.take(0) =~= Seq::<MessageSpecModel>::empty());
    assert(before + concat_events(ms.take(0), f) =~= before);
    while i < items.len()
        invariant
            i <= items@.len(),
            ms == items@.map_values(|x: Message| message_spec_model(x)),
            f == (|m: MessageSpecModel| message_events(m)),
            writer_events(*writer) == before + concat_events(ms.take(i as int), f),
        decreases items@.len() - i,
    {
        write_message(writer, &items[i])?;
        proof {
            let t = ms.take(i + 1);
            assert(t.drop_last() =~= ms.take(i as int));
            assert(t.last() == message_spec_model(items@[i as int]));
            assert(concat_events(t, f) == concat_events(t.drop_last(), f) + f(t.last()));
            assert(writer_events(*writer) =~= before + concat_events(t, f));
        }
        i += 1;
    }
    assert(ms.take(i as int) =~= ms);
    Ok(())
}

/// Writes a component definition: an empty element, or one around its
/// references.
fn write_component_spec(writer: &mut Writer<Vec<u8>>, c: &ComponentSpec) -> (r: Result<(), std::io::Error>)
    ensures
        r is Ok,
        writer_events(*final(writer)) == writer_events(*old(writer)) + component_spec_events(
            component_spec_model(*c),
        ),
{
    let ghost before = writer_events(*writer);
    let t = tag1("component", "name", c.name.clone());
    let ghost tv = t@;
    if c.values.len() == 0 {
        let r = write_one(writer, XmlOutput::Empty(t));
        assert(before.push(XmlOutputView::Empty(tv)) =~= before + component_spec_events(component_spec_model(*c)));
        r
    } else {
        write_one(writer, XmlOutput::Start(t))?;
        write_values(writer, &c.values)?;
        let r = write_one(writer, XmlOutput::End(String::from_str("component")));
        assert(before.push(XmlOutputView::Start(tv)).add(values_events(field_values_model(c.values@))).push(
            XmlOutputView::End("component"@),
        ) =~= before + component_spec_events(component_spec_model(*c)));
        r
    }
}

/// Writes component definitions, one after the other.
fn write_component_specs(writer: &mut Writer<Vec<u8>>, items: &Vec<ComponentSpec>) -> (r: Result<(), std::io::Error>)
    ensures
        r is Ok,
        writer_events(*final(writer)) == writer_events(*old(writer)) + concat_events(
            items@.map_values(|x: ComponentSpec| component_spec_model(x)),
            |m: ComponentSpecModel| component_spec_events(m),
        ),
{
    let ghost before = writer_events(*writer);
    let ghost ms = items@.map_values(|x: ComponentSpec| component_spec_model(x));
    let ghost f = |m: ComponentSpecModel| component_spec_events(m);
    let mut i: usize = 0;
    assert(ms.take(0) =~= Seq::<ComponentSpecModel>::empty());
    assert(before + concat_events(ms.take(0), f) =~= before);
    while i < items.len()
        invariant
            i <= items@.len(),
            ms == items@.map_values(|x: ComponentSpec| component_spec_model(x)),
            f == (|m: ComponentSpecModel| component_spec_events(m)),
            writer_events(*writer) == before + concat_events(ms.take(i as int), f),
        decreases items@.len() - i,
    {
        write_component_spec(writer, &items[i])?;
        proof {
            let t = ms.take(i + 1);
            assert(t.drop_last() =~= ms.take(i as int));
            assert(t.last() == component_spec_model(items@[i as int]));
            assert(concat_events(t, f) == concat_events(t.drop_last(), f) + f(t.last()));
            assert(writer_events(*writer) =~= before + concat_events(t, f));
        }
        i += 1;
    }
    assert(ms.take(i as int) =~= ms);
    Ok(())
}

/// Writes a section of references: an empty element, or one around them.
fn write_values_section(writer: &mut Writer<Vec<u8>>, name: &str, items: &Vec<FieldValue>) -> (r: Result<(), std::io::Error>)
    ensures
        r is Ok,
        writer_events(*final(writer)) == writer_events(*old(writer)) + element_events(
            tag_of(name@, seq![]),
            items@.len() > 0,
            values_events(field_values_model(items@)),
        ),
{
    let ghost before = writer_events(*writer);
    let t = tag0(name);
    let ghost tv = t@;
    if items.len() == 0 {
        let r = write_one(writer, XmlOutput::Empty(t));
        assert(r is Ok ==> writer_events(*writer) =~= before + element_events(tv, false, values_events(field_values_model(items@))));
        r
    } else {
        write_one(writer, XmlOutput::Start(t))?;
        write_values(writer, items)?;
        let r = write_one(writer, XmlOutput::End(String::from_str(name)));
        assert(r is Ok ==> writer_events(*writer) =~= before + element_events(tv, true, values_events(field_values_model(items@))));
        r
    }
}

/// Writes a section of message definitions: an empty element, or one around them.
fn write_messages_section(writer: &mut Writer<Vec<u8>>, name: &str, items: &Vec<Message>) -> (r: Result<(), std::io::Error>)
    ensures
        r is Ok,
        writer_events(*final(writer)) == writer_events(*old(writer)) + element_events(
            tag_of(name@, seq![]),
            items@.len() > 0,
            concat_events(items@.map_values(|x: Message| message_spec_model(x)), |m: MessageSpecModel| message_events(m)),
        ),
{
    let ghost before = writer_events(*writer);
    let t = tag0(name);
    let ghost tv = t@;
    if items.len() == 0 {
        let r = write_one(writer, XmlOutput::Empty(t));
        assert(r is Ok ==> writer_events(*writer) =~= before + element_events(tv, false, concat_events(items@.map_values(|x: Message| message_spec_model(x)), |m: MessageSpecModel| message_events(m))));
        r
    } else {
        write_one(writer, XmlOutput::Start(t))?;
        write_messages(writer, items)?;
        let r = write_one(writer, XmlOutput::End(String::from_str(name)));
        assert(r is Ok ==> writer_events(*writer) =~= before + element_events(tv, true, concat_events(items@.map_values(|x: Message| message_spec_model(x)), |m: MessageSpecModel| message_events(m))));
        r
    }
}

/// Writes a section of component definitions: an empty element, or one around them.
fn write_component_specs_section(writer: &mut Writer<Vec<u8>>, name: &str, items: &Vec<ComponentSpec>) -> (r: Result<(), std::io::Error>)
    ensures
        r is Ok,
        writer_events(*final(writer)) == writer_events(*old(writer)) + element_events(
            tag_of(name@, seq![]),
            items@.len() > 0,
            concat_events(items@.map_values(|x: ComponentSpec| component_spec_model(x)), |m: ComponentSpecModel| component_spec_events(m)),
        ),
{
    let ghost before = writer_events(*writer);
    let t = tag0(name);
    let ghost tv = t@;
    if items.len() == 0 {
        let r = write_one(writer, XmlOutput::Empty(t));
        assert(r is Ok ==> writer_events(*writer) =~= before + element_events(tv, false, concat_events(items@.map_values(|x: ComponentSpec| component_spec_model(x)), |m: ComponentSpecModel| component_spec_events(m))));
        r
    } else {
        write_one(writer, XmlOutput::Start(t))?;
        write_component_specs(writer, items)?;
        let r = write_one(writer, XmlOutput::End(String::from_str(name)));
        assert(r is Ok ==> writer_events(*writer) =~= before + element_events(tv, true, concat_events(items@.map_values(|x: ComponentSpec| component_spec_model(x)), |m: ComponentSpecModel| component_spec_events(m))));
        r
    }
}

/// Writes a section of field definitions: an empty element, or one around them.
fn write_field_specs_section(writer: &mut Writer<Vec<u8>>, name: &str, items: &Vec<FieldSpec>) -> (r: Result<(), std::io::Error>)
    ensures
        r is Ok,
        writer_events(*final(writer)) == writer_events(*old(writer)) + element_events(
            tag_of(name@, seq![]),
            items@.len() > 0,
            concat_events(items@.map_values(|x: FieldSpec| field_spec_model(x)), |m: FieldSpecModel| field_spec_events(m)),
        ),
{
    let ghost before = writer_events(*writer);
    let t = tag0(name);
    let ghost tv = t@;
    if items.len() == 0 {
        let r = write_one(writer, XmlOutput::Empty(t));
        assert(r is Ok ==> writer_events(*writer) =~= before + element_events(tv, false, concat_events(items@.map_values(|x: FieldSpec| field_spec_model(x)), |m: FieldSpecModel| field_spec_events(m))));
        r
    } else {
        write_one(writer, XmlOutput::Start(t))?;
        write_field_specs(writer, items)?;
        let r = write_one(writer, XmlOutput::End(String::from_str(name)));
        assert(r is Ok ==> writer_events(*writer) =~= before + element_events(tv, true, concat_events(items@.map_values(|x: FieldSpec| field_spec_model(x)), |m: FieldSpecModel| field_spec_events(m))));
        r
    }
}

/// Writes a whole specification.
#[verifier::spinoff_prover]
#[verifier::rlimit(80)]
fn write_fix(writer: &mut Writer<Vec<u8>>, spec: &FixSpec) -> (r: Result<(), std::io::Error>)
    ensures
        r is Ok,
        writer_events(*final(writer)) == writer_events(*old(writer)) + fix_events(fix_spec_view(*spec)),
{
    let ghost before = writer_events(*writer);
    let ghost m = fix_spec_view(*spec);
    let t = tag4(
        "fix",
        "type",
        String::from_str(if spec.is_fixt { "FIXT" } else { "FIX" }),
        "major",
        u32_to_decimal(spec.version.0 as u32),
        "minor",
        u32_to_decimal(spec.version.1 as u32),
        "servicepack",
        u32_to_decimal(spec.version.2 as u32),
    );
    let ghost tv = t@;
    write_one(writer, XmlOutput::Start(t))?;
    let ghost e0 = writer_events(*writer);
    write_values_section(writer, "header", &spec.headers)?;
    let ghost e1 = writer_events(*writer);
    write_messages_section(writer, "messages", &spec.messages)?;
    let ghost e2 = writer_events(*writer);
    write_values_section(writer, "trailer", &spec.trailers)?;
    let ghost e3 = writer_events(*writer);
    write_component_specs_section(writer, "components", &spec.component_specs)?;
    let ghost e4 = writer_events(*writer);
    write_field_specs_section(writer, "fields", &spec.field_specs)?;
    let ghost e5 = writer_events(*writer);
    let r = write_one(writer, XmlOutput::End(String::from_str("fix")));
    proof {
        assert(tv == tag_of(
            "fix"@,
            seq![
                ("type"@, if m.is_fixt { "FIXT"@ } else { "FIX"@ }),
                ("major"@, decimal_digits(m.version.0 as nat)),
                ("minor"@, decimal_digits(m.version.1 as nat)),
                ("servicepack"@, decimal_digits(m.version.2 as nat)),
            ],
        ));
        let h = element_events(tag_of("header"@, seq![]), m.headers.len() > 0, values_events(m.headers));
        let ms = element_events(
            tag_of("messages"@, seq![]),
            m.messages.len() > 0,
            concat_events(m.messages, |x: MessageSpecModel| message_events(x)),
        );
        let t = element_events(tag_of("trailer"@, seq![]), m.trailers.len() > 0, values_events(m.trailers));
        let c = element_events(
            tag_of("components"@, seq![]),
            m.component_specs.len() > 0,
            concat_events(m.component_specs, |x: ComponentSpecModel| component_spec_events(x)),
        );
        let f = element_events(
            tag_of("fields"@, seq![]),
            m.field_specs.len() > 0,
            concat_events(m.field_specs, |x: FieldSpecModel| field_spec_events(x)),
        );
        assert(e0 == before.push(XmlOutputView::Start(tv)));
        assert(e1 == e0 + h);
        assert(e2 == e1 + ms);
        assert(e3 == e2 + t);
        assert(e4 == e3 + c);
        assert(e5 == e4 + f);
        assert(fix_events(m) == seq![XmlOutputView::Start(tv)] + h + ms + t + c + f + seq![XmlOutputView::End("fix"@)]);
        if r is Ok {
            assert(writer_events(*writer) =~= before + fix_events(m));
        }
    }
    r
}

/// A tag with four attributes.
fn tag4(name: &str, k1: &str, v1: String, k2: &str, v2: String, k3: &str, v3: String, k4: &str, v4: String) -> (r: XmlTag)
    ensures
        r@ == tag_of(name@, seq![(k1@, v1@), (k2@, v2@), (k3@, v3@), (k4@, v4@)]),
{
    let mut attributes = Vec::new();
    attributes.push((String::from_str(k1), v1));
    attributes.push((String::from_str(k2), v2));
    attributes.push((String::from_str(k3), v3));
    attributes.push((String::from_str(k4), v4));
    let t = XmlTag { name: String::from_str(name), attributes };
    assert(t@.attributes =~= seq![(k1@, v1@), (k2@, v2@), (k3@, v3@), (k4@, v4@)]);
    t
}

/// Writes a specification as an indented FIX XML dictionary: the `fix` element
/// with its type and version, and its `header`, `messages`, `trailer`,
/// `components` and `fields` sections, each empty element written as such.
pub fn write_spec(spec: &FixSpec) -> (r: std::io::Result<Bytes>)
    ensures
        r matches Ok(b) && bytes_content(b) == xml_text(fix_events(fix_spec_view(*spec))),
{
    let mut writer = new_writer();
    write_fix(&mut writer, spec)?;
    assert(writer_events(writer) =~= fix_events(fix_spec_view(*spec)));
    let v = writer_bytes(writer);
    Ok(bytes_from_vec(v))
}

// ---------------------------------------------------------------------------
// Reading back what was written
// ---------------------------------------------------------------------------

/// How the reader hands out an attribute list written with these (key, value)
/// pairs, where no value needs escaping: each key and value as its UTF-8 bytes.
pub open spec fn read_attributes(a: Seq<(Seq<char>, Seq<char>)>) -> Seq<Option<(Seq<u8>, Seq<u8>)>> {
    a.map_values(|p: (Seq<char>, Seq<char>)| Some((encode_utf8(p.0), encode_utf8(p.1))))
}

/// How the reader hands out a tag that was written.
pub open spec fn read_element(t: XmlTagView) -> XmlElementView {
    XmlElementView { name: encode_utf8(t.name), attributes: read_attributes(t.attributes) }
}

/// The event the reader hands out for an event that was written.
pub open spec fn read_form(e: XmlOutputView) -> XmlEventView {
    match e {
        XmlOutputView::Start(t) => XmlEventView::Start(read_element(t)),
        XmlOutputView::Empty(t) => XmlEventView::Empty(read_element(t)),
        XmlOutputView::End(n) => XmlEventView::End(encode_utf8(n)),
    }
}

/// From read number `k` on, the reader hands out the read forms of `events`.
pub open spec fn reads_at(src: EventSourceView, k: nat, events: Seq<XmlOutputView>) -> bool {
    forall|j: int| 0 <= j < events.len() ==> source_event(src, (k + j) as nat) == Ok::<XmlEventView, Seq<char>>(
        read_form(#[trigger] events[j]),
    )
}

proof fn lemma_reads_first(src: EventSourceView, k: nat, events: Seq<XmlOutputView>)
    requires
        reads_at(src, k, events),
        events.len() > 0,
    ensures
        source_event(src, k) == Ok::<XmlEventView, Seq<char>>(read_form(events[0])),
        reads_at(src, k + 1, events.skip(1)),
{
    assert(source_event(src, (k + 0) as nat) == Ok::<XmlEventView, Seq<char>>(read_form(events[0])));
    assert forall|j: int| 0 <= j < events.skip(1).len() implies source_event(src, (k + 1 + j) as nat) == Ok::<
        XmlEventView,
        Seq<char>,
    >(read_form(#[trigger] events.skip(1)[j])) by {
        assert(events.skip(1)[j] == events[j + 1]);
        assert(source_event(src, (k + (j + 1)) as nat) == Ok::<XmlEventView, Seq<char>>(read_form(events[j + 1])));
    }
}

proof fn lemma_reads_split(src: EventSourceView, k: nat, a: Seq<XmlOutputView>, b: Seq<XmlOutputView>)
    requires
        reads_at(src, k, a + b),
    ensures
        reads_at(src, k, a),
        reads_at(src, k + a.len(), b),
{
    assert forall|j: int| 0 <= j < a.len() implies source_event(src, (k + j) as nat) == Ok::<XmlEventView, Seq<char>>(
        read_form(#[trigger] a[j]),
    ) by {
        assert((a + b)[j] == a[j]);
    }
    assert forall|j: int| 0 <= j < b.len() implies source_event(src, (k + a.len() + j) as nat) == Ok::<
        XmlEventView,
        Seq<char>,
    >(read_form(#[trigger] b[j])) by {
        assert((a + b)[a.len() + j] == b[j]);
        assert(source_event(src, (k + (a.len() + j)) as nat) == Ok::<XmlEventView, Seq<char>>(read_form((a + b)[a.len() + j])));
    }
}

proof fn lemma_encode_injective(a: Seq<char>, b: Seq<char>)
    requires
        a != b,
    ensures
        encode_utf8(a) != encode_utf8(b),
{
    vstd::utf8::encode_utf8_decode_utf8(a);
    vstd::utf8::encode_utf8_decode_utf8(b);
}

proof fn lemma_find_attribute(a: Seq<(Seq<char>, Seq<char>)>, j: int, i: int)
    requires
        0 <= i <= j < a.len(),
        forall|q: int| 0 <= q < j ==> a[q].0 != a[j].0,
    ensures
        find_attribute(read_attributes(a), encode_utf8(a[j].0), i) == Some(encode_utf8(a[j].1)),
    decreases j - i,
{
    let ra = read_attributes(a);
    assert(ra[i] == Some((encode_utf8(a[i].0), encode_utf8(a[i].1))));
    if i < j {
        lemma_encode_injective(a[i].0, a[j].0);
        lemma_find_attribute(a, j, i + 1);
    }
}

/// A written attribute reads back, where no earlier attribute has its key.
proof fn lemma_attribute(t: XmlTagView, j: int)
    requires
        0 <= j < t.attributes.len(),
        forall|q: int| 0 <= q < j ==> t.attributes[q].0 != t.attributes[j].0,
    ensures
        attribute_text(read_element(t), t.attributes[j].0) == Ok::<Seq<char>, FixSpecErrorView>(t.attributes[j].1),
{
    lemma_find_attribute(t.attributes, j, 0);
    vstd::utf8::encode_utf8_valid_utf8(t.attributes[j].1);
    vstd::utf8::encode_utf8_decode_utf8(t.attributes[j].1);
}

proof fn lemma_scan_digits(d: Seq<u8>, i: int, max: nat)
    requires
        all_digit_bytes(d),
        digits_value(d) <= max,
        0 <= i <= d.len(),
    ensures
        scan_digits(d, i, digits_value(d.take(i)), max) == Ok::<nat, Seq<char>>(digits_value(d)),
    decreases d.len() - i,
{
    if i < d.len() {
        let t = d.take(i + 1);
        assert(t.drop_last() =~= d.take(i));
        assert(t.last() == d[i]);
        assert(is_digit_byte(d[i]));
        lemma_digits_value_prefix(d, i + 1);
        assert(d.subrange(0, i + 1) =~= t);
        lemma_scan_digits(d, i + 1, max);
    } else {
        assert(d.take(i) =~= d);
    }
}

/// Decimal text reads back as its number.
proof fn lemma_decimal_parses(n: nat, max: nat)
    requires
        n <= max,
    ensures
        parse_uint(encode_utf8(decimal_digits(n)), max) == Ok::<nat, Seq<char>>(n),
{
    lemma_decimal_bytes(n);
    lemma_decimal_digits(n);
    let b = encode_utf8(decimal_digits(n));
    assert(is_digit_byte(b[0]));
    assert(b.take(0) =~= Seq::<u8>::empty());
    lemma_scan_digits(b, 0, max);
}

proof fn lemma_reference_reads_back(x: Seq<char>, n: Seq<char>, r: bool)
    ensures
        reference_node(read_element(tag_of(x, seq![("name"@, n), ("required"@, yes_no(r))]))) == Ok::<
            (Seq<char>, bool),
            FixSpecErrorView,
        >((n, r)),
{
    reveal_strlit("name");
    reveal_strlit("required");
    reveal_strlit("Y");
    reveal_strlit("N");
    assert("N"@[0] != "Y"@[0]);
    let t = tag_of(x, seq![("name"@, n), ("required"@, yes_no(r))]);
    lemma_attribute(t, 0);
    lemma_attribute(t, 1);
}

proof fn lemma_fix_node_reads_back(m: FixSpecModel)
    ensures
        fix_node(
            read_element(
                tag_of(
                    "fix"@,
                    seq![
                        ("type"@, if m.is_fixt { "FIXT"@ } else { "FIX"@ }),
                        ("major"@, decimal_digits(m.version.0 as nat)),
                        ("minor"@, decimal_digits(m.version.1 as nat)),
                        ("servicepack"@, decimal_digits(m.version.2 as nat)),
                    ],
                ),
            ),
        ) == Ok::<FixSpecModel, FixSpecErrorView>(
            FixSpecModel {
                version: m.version,
                is_fixt: m.is_fixt,
                headers: Seq::empty(),
                messages: Seq::empty(),
                trailers: Seq::empty(),
                component_specs: Seq::empty(),
                field_specs: Seq::empty(),
            },
        ),
{
    reveal_strlit("type");
    reveal_strlit("major");
    reveal_strlit("minor");
    reveal_strlit("servicepack");
    reveal_strlit("FIXT");
    reveal_strlit("FIX");
    let t = tag_of(
        "fix"@,
        seq![
            ("type"@, if m.is_fixt { "FIXT"@ } else { "FIX"@ }),
            ("major"@, decimal_digits(m.version.0 as nat)),
            ("minor"@, decimal_digits(m.version.1 as nat)),
            ("servicepack"@, decimal_digits(m.version.2 as nat)),
        ],
    );
    assert("major"@[1] != "minor"@[1]);
    assert("FIX"@.len() != "FIXT"@.len());
    lemma_attribute(t, 0);
    lemma_attribute(t, 1);
    lemma_attribute(t, 2);
    lemma_attribute(t, 3);
    lemma_decimal_parses(m.version.0 as nat, 255);
    lemma_decimal_parses(m.version.1 as nat, 255);
    lemma_decimal_parses(m.version.2 as nat, 255);
}

proof fn lemma_field_spec_node_reads_back(f: FieldSpecModel)
    ensures
        field_spec_node(
            read_element(
                tag_of(
                    "field"@,
                    seq![("number"@, decimal_digits(f.number as nat)), ("name"@, f.name), ("type"@, field_type_name(f.field_type))],
                ),
            ),
        ) == Ok::<FieldSpecModel, FixSpecErrorView>(FieldSpecModel { values: Seq::empty(), ..f }),
{
    reveal_strlit("number");
    reveal_strlit("name");
    reveal_strlit("type");
    let t = tag_of(
        "field"@,
        seq![("number"@, decimal_digits(f.number as nat)), ("name"@, f.name), ("type"@, field_type_name(f.field_type))],
    );
    lemma_attribute(t, 0);
    lemma_attribute(t, 1);
    lemma_attribute(t, 2);
    lemma_decimal_parses(f.number as nat, u32::MAX as nat);
    crate::fix_spec::field_type_name_round_trip(f.field_type);
}

proof fn lemma_allowed_value_reads_back(v: (Seq<char>, Seq<char>))
    ensures
        allowed_value_node(read_element(tag_of("value"@, seq![("enum"@, v.0), ("description"@, v.1)]))) == Ok::<
            (Seq<char>, Seq<char>),
            FixSpecErrorView,
        >(v),
{
    reveal_strlit("enum");
    reveal_strlit("description");
    let t = tag_of("value"@, seq![("enum"@, v.0), ("description"@, v.1)]);
    lemma_attribute(t, 0);
    lemma_attribute(t, 1);
}

proof fn lemma_message_node_reads_back(m: MessageSpecModel)
    ensures
        message_node(
            read_element(
                tag_of(
                    "message"@,
                    seq![("name"@, m.name), ("msgtype"@, m.msg_type), ("msgcat"@, message_category_name(m.category))],
                ),
            ),
        ) == Ok::<MessageSpecModel, FixSpecErrorView>(MessageSpecModel { values: Seq::empty(), ..m }),
{
    reveal_strlit("name");
    reveal_strlit("msgtype");
    reveal_strlit("msgcat");
    let t = tag_of(
        "message"@,
        seq![("name"@, m.name), ("msgtype"@, m.msg_type), ("msgcat"@, message_category_name(m.category))],
    );
    lemma_attribute(t, 0);
    lemma_attribute(t, 1);
    lemma_attribute(t, 2);
    crate::fix_spec::message_category_name_round_trip(m.category);
}

proof fn lemma_component_node_reads_back(c: ComponentSpecModel)
    ensures
        component_node(read_element(tag_of("component"@, seq![("name"@, c.name)]))) == Ok::<
            ComponentSpecModel,
            FixSpecErrorView,
        >(ComponentSpecModel { values: Seq::empty(), ..c }),
{
    reveal_strlit("name");
    let t = tag_of("component"@, seq![("name"@, c.name)]);
    lemma_attribute(t, 0);
}

proof fn lemma_values_events_concat(a: Seq<FieldValueModel>, b: Seq<FieldValueModel>)
    ensures
        values_events(a + b) == values_events(a) + values_events(b),
    decreases b.len(),
{
    if b.len() == 0 {
        assert(a + b =~= a);
        assert(values_events(a) + values_events(b) =~= values_events(a));
    } else {
        lemma_values_events_concat(a, b.drop_last());
        assert((a + b).drop_last() =~= a + b.drop_last());
        assert((a + b).last() == b.last());
        assert(values_events(a) + values_events(b) =~= values_events(a) + values_events(b.drop_last()) + value_events(
            b.last(),
        ));
    }
}

proof fn lemma_concat_events_concat<T>(a: Seq<T>, b: Seq<T>, f: spec_fn(T) -> Seq<XmlOutputView>)
    ensures
        concat_events(a + b, f) == concat_events(a, f) + concat_events(b, f),
    decreases b.len(),
{
    if b.len() == 0 {
        assert(a + b =~= a);
        assert(concat_events(a, f) + concat_events(b, f) =~= concat_events(a, f));
    } else {
        lemma_concat_events_concat(a, b.drop_last(), f);
        assert((a + b).drop_last() =~= a + b.drop_last());
        assert((a + b).last() == b.last());
        assert(concat_events(a, f) + concat_events(b, f) =~= concat_events(a, f) + concat_events(b.drop_last(), f)
            + f(b.last()));
    }
}

proof fn lemma_value_tags_differ()
    ensures
        encode_utf8("field"@) != encode_utf8("group"@),
        encode_utf8("field"@) != encode_utf8("component"@),
        encode_utf8("group"@) != encode_utf8("component"@),
{
    reveal_strlit("field");
    reveal_strlit("group");
    reveal_strlit("component");
    assert("field"@[0] != "group"@[0]);
    lemma_encode_injective("field"@, "group"@);
    lemma_encode_injective("field"@, "component"@);
    lemma_encode_injective("group"@, "component"@);
}

proof fn lemma_values_events_one(x: FieldValueModel)
    ensures
        values_events(seq![x]) == value_events(x),
{
    assert(seq![x].drop_last() =~= Seq::<FieldValueModel>::empty());
    assert(seq![x].last() == x);
    assert(values_events(Seq::<FieldValueModel>::empty()) =~= Seq::<XmlOutputView>::empty());
    assert(Seq::<XmlOutputView>::empty() + value_events(x) =~= value_events(x));
}

proof fn lemma_values_step_end(src: EventSourceView, k: nat, fuel: nat, end: Seq<char>, acc: Seq<FieldValueModel>)
    requires
        fuel > 0,
        source_event(src, k) == Ok::<XmlEventView, Seq<char>>(XmlEventView::End(encode_utf8(end))),
    ensures
        values_from(src, k, fuel, encode_utf8(end), acc) == Ok::<(Seq<FieldValueModel>, nat, nat), FixSpecErrorView>(
            (acc, k + 1, (fuel - 1) as nat),
        ),
{
}

proof fn lemma_values_step_ref(
    src: EventSourceView,
    k: nat,
    fuel: nat,
    end: Seq<char>,
    acc: Seq<FieldValueModel>,
    x: FieldValueModel,
)
    requires
        fuel > 0,
        x is Field || x is Component,
        source_event(src, k) == Ok::<XmlEventView, Seq<char>>(read_form(value_events(x)[0])),
    ensures
        values_from(src, k, fuel, encode_utf8(end), acc) == values_from(
            src,
            k + 1,
            (fuel - 1) as nat,
            encode_utf8(end),
            acc.push(x),
        ),
{
    lemma_value_tags_differ();
    match x {
        FieldValueModel::Field(n, r) => {
            lemma_reference_reads_back("field"@, n, r);
        },
        FieldValueModel::Component(n, r) => {
            lemma_reference_reads_back("component"@, n, r);
        },
        _ => {},
    }
}

proof fn lemma_values_step_group(
    src: EventSourceView,
    k: nat,
    fuel: nat,
    end: Seq<char>,
    acc: Seq<FieldValueModel>,
    n: Seq<char>,
    r: bool,
    inner: Seq<FieldValueModel>,
    k2: nat,
    f2: nat,
)
    requires
        fuel > 0,
        f2 <= fuel - 1,
        source_event(src, k) == Ok::<XmlEventView, Seq<char>>(
            XmlEventView::Start(read_element(tag_of("group"@, seq![("name"@, n), ("required"@, yes_no(r))]))),
        ),
        values_from(src, k + 1, (fuel - 1) as nat, encode_utf8("group"@), Seq::empty()) == Ok::<
            (Seq<FieldValueModel>, nat, nat),
            FixSpecErrorView,
        >((inner, k2, f2)),
    ensures
        values_from(src, k, fuel, encode_utf8(end), acc) == values_from(
            src,
            k2,
            f2,
            encode_utf8(end),
            acc.push(FieldValueModel::Group(n, r, inner)),
        ),
{
    lemma_value_tags_differ();
    lemma_reference_reads_back("group"@, n, r);
}

/// The events of a list of references, then the end tag `end`, read back as the
/// list.
proof fn lemma_values_read_back(
    src: EventSourceView,
    k: nat,
    fuel: nat,
    end: Seq<char>,
    acc: Seq<FieldValueModel>,
    vs: Seq<FieldValueModel>,
)
    requires
        reads_at(src, k, values_events(vs).push(XmlOutputView::End(end))),
        fuel >= values_events(vs).len() + 1,
    ensures
        values_from(src, k, fuel, encode_utf8(end), acc) == Ok::<
            (Seq<FieldValueModel>, nat, nat),
            FixSpecErrorView,
        >((acc + vs, k + values_events(vs).len() + 1, (fuel - values_events(vs).len() - 1) as nat)),
    decreases vs,
{
    let ev = values_events(vs).push(XmlOutputView::End(end));
    if vs.len() == 0 {
        assert(values_events(vs) =~= Seq::<XmlOutputView>::empty());
        lemma_reads_first(src, k, ev);
        assert(ev[0] == XmlOutputView::End(end));
        lemma_values_step_end(src, k, fuel, end, acc);
        assert(acc + vs =~= acc);
    } else {
        let x = vs[0];
        let rest = vs.skip(1);
        assert(vs =~= seq![x] + rest);
        lemma_values_events_concat(seq![x], rest);
        lemma_values_events_one(x);
        let tail = values_events(rest).push(XmlOutputView::End(end));
        assert(ev =~= value_events(x) + tail);
        lemma_reads_split(src, k, value_events(x), tail);
        let lx = value_events(x).len();
        assert(values_events(vs).len() == lx + values_events(rest).len());
        match x {
            FieldValueModel::Group(n, r, inner) => {
                let st = XmlOutputView::Start(tag_of("group"@, seq![("name"@, n), ("required"@, yes_no(r))]));
                let body = values_events(inner).push(XmlOutputView::End("group"@));
                assert(value_events(x) =~= seq![st] + body);
                lemma_reads_split(src, k, seq![st], body);
                lemma_reads_first(src, k, seq![st]);
                assert(decreases_to!(vs => vs[0]));
                assert(decreases_to!(vs => inner));
                lemma_values_read_back(src, k + 1, (fuel - 1) as nat, "group"@, Seq::empty(), inner);
                assert(Seq::<FieldValueModel>::empty() + inner =~= inner);
                let li = values_events(inner).len();
                assert(lx == li + 2);
                lemma_values_step_group(src, k, fuel, end, acc, n, r, inner, k + lx, (fuel - lx) as nat);
                lemma_values_read_back(src, k + lx, (fuel - lx) as nat, end, acc.push(x), rest);
            },
            _ => {
                lemma_reads_first(src, k, value_events(x));
                lemma_values_step_ref(src, k, fuel, end, acc, x);
                lemma_values_read_back(src, k + 1, (fuel - 1) as nat, end, acc.push(x), rest);
            },
        }
        assert(acc.push(x) + rest =~= acc + vs);
    }
}

proof fn lemma_concat_events_one<T>(x: T, f: spec_fn(T) -> Seq<XmlOutputView>)
    ensures
        concat_events(seq![x], f) == f(x),
{
    let one = seq![x];
    assert(one.drop_last() =~= Seq::<T>::empty());
    assert(one.last() == x);
    assert(concat_events(Seq::<T>::empty(), f) =~= Seq::<XmlOutputView>::empty());
    assert(concat_events(one, f) == concat_events(one.drop_last(), f) + f(one.last()));
    assert(Seq::<XmlOutputView>::empty() + f(x) =~= f(x));
}

proof fn lemma_allowed_step(src: EventSourceView, k: nat, fuel: nat, acc: Seq<(Seq<char>, Seq<char>)>, v: (Seq<char>, Seq<char>))
    requires
        fuel > 0,
        source_event(src, k) == Ok::<XmlEventView, Seq<char>>(read_form(allowed_value_events(v)[0])),
    ensures
        allowed_values_from(src, k, fuel, acc) == allowed_values_from(src, k + 1, (fuel - 1) as nat, acc.push(v)),
{
    lemma_allowed_value_reads_back(v);
}

proof fn lemma_allowed_end(src: EventSourceView, k: nat, fuel: nat, acc: Seq<(Seq<char>, Seq<char>)>)
    requires
        fuel > 0,
        source_event(src, k) == Ok::<XmlEventView, Seq<char>>(XmlEventView::End(encode_utf8("field"@))),
    ensures
        allowed_values_from(src, k, fuel, acc) == Ok::<
            (Seq<(Seq<char>, Seq<char>)>, nat, nat),
            FixSpecErrorView,
        >((acc, k + 1, (fuel - 1) as nat)),
{
}

/// The events of allowed values, then `</field>`, read back as the values.
proof fn lemma_allowed_read_back(
    src: EventSourceView,
    k: nat,
    fuel: nat,
    acc: Seq<(Seq<char>, Seq<char>)>,
    vs: Seq<(Seq<char>, Seq<char>)>,
    g: spec_fn((Seq<char>, Seq<char>)) -> Seq<XmlOutputView>,
)
    requires
        forall|v: (Seq<char>, Seq<char>)| #[trigger] g(v) == allowed_value_events(v),
        reads_at(src, k, concat_events(vs, g).push(XmlOutputView::End("field"@))),
        fuel >= concat_events(vs, g).len() + 1,
    ensures
        allowed_values_from(src, k, fuel, acc) == Ok::<(Seq<(Seq<char>, Seq<char>)>, nat, nat), FixSpecErrorView>(
            (acc + vs, k + concat_events(vs, g).len() + 1, (fuel - concat_events(vs, g).len() - 1) as nat),
        ),
    decreases vs.len(),
{
    let ev = concat_events(vs, g).push(XmlOutputView::End("field"@));
    if vs.len() == 0 {
        assert(concat_events(vs, g) =~= Seq::<XmlOutputView>::empty());
        lemma_reads_first(src, k, ev);
        lemma_allowed_end(src, k, fuel, acc);
        assert(acc + vs =~= acc);
    } else {
        let x = vs[0];
        let rest = vs.skip(1);
        assert(vs =~= seq![x] + rest);
        lemma_concat_events_concat(seq![x], rest, g);
        lemma_concat_events_one(x, g);
        let tail = concat_events(rest, g).push(XmlOutputView::End("field"@));
        assert(ev =~= allowed_value_events(x) + tail);
        lemma_reads_split(src, k, allowed_value_events(x), tail);
        lemma_reads_first(src, k, allowed_value_events(x));
        lemma_allowed_step(src, k, fuel, acc, x);
        lemma_allowed_read_back(src, k + 1, (fuel - 1) as nat, acc.push(x), rest, g);
        assert(acc.push(x) + rest =~= acc + vs);
    }
}

/// The events of one field definition read back as it, inside `fields`.
proof fn lemma_field_spec_step(src: EventSourceView, k: nat, fuel: nat, acc: Seq<FieldSpecModel>, x: FieldSpecModel)
    requires
        reads_at(src, k, field_spec_events(x)),
        fuel >= field_spec_events(x).len(),
    ensures
        field_specs_from(src, k, fuel, acc) == field_specs_from(
            src,
            k + field_spec_events(x).len(),
            (fuel - field_spec_events(x).len()) as nat,
            acc.push(x),
        ),
{
    let t = tag_of(
        "field"@,
        seq![("number"@, decimal_digits(x.number as nat)), ("name"@, x.name), ("type"@, field_type_name(x.field_type))],
    );
    let g = |v: (Seq<char>, Seq<char>)| allowed_value_events(v);
    let inner = concat_events(x.values, g);
    lemma_field_spec_node_reads_back(x);
    if x.values.len() > 0 {
        let body = inner.push(XmlOutputView::End("field"@));
        assert(field_spec_events(x) =~= seq![XmlOutputView::Start(t)] + body);
        lemma_reads_split(src, k, seq![XmlOutputView::Start(t)], body);
        lemma_reads_first(src, k, seq![XmlOutputView::Start(t)]);
        lemma_allowed_read_back(src, k + 1, (fuel - 1) as nat, Seq::empty(), x.values, g);
        assert(Seq::<(Seq<char>, Seq<char>)>::empty() + x.values =~= x.values);
        assert(FieldSpecModel { values: x.values, ..FieldSpecModel { values: Seq::empty(), ..x } } == x);
    } else {
        assert(field_spec_events(x) == seq![XmlOutputView::Empty(t)]);
        lemma_reads_first(src, k, field_spec_events(x));
        assert(x.values =~= Seq::<(Seq<char>, Seq<char>)>::empty());
        assert(FieldSpecModel { values: Seq::empty(), ..x } == x);
    }
}

/// The events of one message definition read back as it, inside `messages`.
proof fn lemma_message_step(src: EventSourceView, k: nat, fuel: nat, acc: Seq<MessageSpecModel>, x: MessageSpecModel)
    requires
        reads_at(src, k, message_events(x)),
        fuel >= message_events(x).len(),
    ensures
        messages_from(src, k, fuel, acc) == messages_from(
            src,
            k + message_events(x).len(),
            (fuel - message_events(x).len()) as nat,
            acc.push(x),
        ),
{
    let t = tag_of(
        "message"@,
        seq![("name"@, x.name), ("msgtype"@, x.msg_type), ("msgcat"@, message_category_name(x.category))],
    );
    lemma_message_node_reads_back(x);
    if x.values.len() > 0 {
        let body = values_events(x.values).push(XmlOutputView::End("message"@));
        assert(message_events(x) =~= seq![XmlOutputView::Start(t)] + body);
        lemma_reads_split(src, k, seq![XmlOutputView::Start(t)], body);
        lemma_reads_first(src, k, seq![XmlOutputView::Start(t)]);
        lemma_values_read_back(src, k + 1, (fuel - 1) as nat, "message"@, Seq::empty(), x.values);
        assert(Seq::<FieldValueModel>::empty() + x.values =~= x.values);
        assert(MessageSpecModel { values: x.values, ..MessageSpecModel { values: Seq::empty(), ..x } } == x);
    } else {
        assert(message_events(x) == seq![XmlOutputView::Empty(t)]);
        lemma_reads_first(src, k, message_events(x));
        assert(x.values =~= Seq::<FieldValueModel>::empty());
        assert(MessageSpecModel { values: Seq::empty(), ..x } == x);
    }
}

/// The events of one component definition read back as it, inside
/// `components`.
proof fn lemma_component_step(src: EventSourceView, k: nat, fuel: nat, acc: Seq<ComponentSpecModel>, x: ComponentSpecModel)
    requires
        reads_at(src, k, component_spec_events(x)),
        fuel >= component_spec_events(x).len(),
    ensures
        components_from(src, k, fuel, acc) == components_from(
            src,
            k + component_spec_events(x).len(),
            (fuel - component_spec_events(x).len()) as nat,
            acc.push(x),
        ),
{
    let t = tag_of("component"@, seq![("name"@, x.name)]);
    lemma_component_node_reads_back(x);
    if x.values.len() > 0 {
        let body = values_events(x.values).push(XmlOutputView::End("component"@));
        assert(component_spec_events(x) =~= seq![XmlOutputView::Start(t)] + body);
        lemma_reads_split(src, k, seq![XmlOutputView::Start(t)], body);
        lemma_reads_first(src, k, seq![XmlOutputView::Start(t)]);
        lemma_values_read_back(src, k + 1, (fuel - 1) as nat, "component"@, Seq::empty(), x.values);
        assert(Seq::<FieldValueModel>::empty() + x.values =~= x.values);
        assert(ComponentSpecModel { values: x.values, ..ComponentSpecModel { values: Seq::empty(), ..x } } == x);
    } else {
        assert(component_spec_events(x) == seq![XmlOutputView::Empty(t)]);
        lemma_reads_first(src, k, component_spec_events(x));
        assert(x.values =~= Seq::<FieldValueModel>::empty());
        assert(ComponentSpecModel { values: Seq::empty(), ..x } == x);
    }
}

/// The events of field definitions, then `</fields>`, read back as them.
proof fn lemma_field_specs_read_back(
    src: EventSourceView,
    k: nat,
    fuel: nat,
    acc: Seq<FieldSpecModel>,
    fs: Seq<FieldSpecModel>,
    g: spec_fn(FieldSpecModel) -> Seq<XmlOutputView>,
)
    requires
        forall|x: FieldSpecModel| #[trigger] g(x) == field_spec_events(x),
        reads_at(src, k, concat_events(fs, g).push(XmlOutputView::End("fields"@))),
        fuel >= concat_events(fs, g).len() + 1,
    ensures
        field_specs_from(src, k, fuel, acc) == Ok::<(Seq<FieldSpecModel>, nat, nat), FixSpecErrorView>(
            (acc + fs, k + concat_events(fs, g).len() + 1, (fuel - concat_events(fs, g).len() - 1) as nat),
        ),
    decreases fs.len(),
{
    let ev = concat_events(fs, g).push(XmlOutputView::End("fields"@));
    if fs.len() == 0 {
        assert(concat_events(fs, g) =~= Seq::<XmlOutputView>::empty());
        lemma_reads_first(src, k, ev);
        assert(acc + fs =~= acc);
    } else {
        let x = fs[0];
        let rest = fs.skip(1);
        assert(fs =~= seq![x] + rest);
        lemma_concat_events_concat(seq![x], rest, g);
        lemma_concat_events_one(x, g);
        let tail = concat_events(rest, g).push(XmlOutputView::End("fields"@));
        assert(ev =~= field_spec_events(x) + tail);
        lemma_reads_split(src, k, field_spec_events(x), tail);
        lemma_field_spec_step(src, k, fuel, acc, x);
        let lx = field_spec_events(x).len();
        lemma_field_specs_read_back(src, k + lx, (fuel - lx) as nat, acc.push(x), rest, g);
        assert(acc.push(x) + rest =~= acc + fs);
    }
}

/// The events of message definitions, then `</messages>`, read back as them.
proof fn lemma_messages_read_back(
    src: EventSourceView,
    k: nat,
    fuel: nat,
    acc: Seq<MessageSpecModel>,
    ms: Seq<MessageSpecModel>,
    g: spec_fn(MessageSpecModel) -> Seq<XmlOutputView>,
)
    requires
        forall|x: MessageSpecModel| #[trigger] g(x) == message_events(x),
        reads_at(src, k, concat_events(ms, g).push(XmlOutputView::End("messages"@))),
        fuel >= concat_events(ms, g).len() + 1,
    ensures
        messages_from(src, k, fuel, acc) == Ok::<(Seq<MessageSpecModel>, nat, nat), FixSpecErrorView>(
            (acc + ms, k + concat_events(ms, g).len() + 1, (fuel - concat_events(ms, g).len() - 1) as nat),
        ),
    decreases ms.len(),
{
    let ev = concat_events(ms, g).push(XmlOutputView::End("messages"@));
    if ms.len() == 0 {
        assert(concat_events(ms, g) =~= Seq::<XmlOutputView>::empty());
        lemma_reads_first(src, k, ev);
        assert(acc + ms =~= acc);
    } else {
        let x = ms[0];
        let rest = ms.skip(1);
        assert(ms =~= seq![x] + rest);
        lemma_concat_events_concat(seq![x], rest, g);
        lemma_concat_events_one(x, g);
        let tail = concat_events(rest, g).push(XmlOutputView::End("messages"@));
        assert(ev =~= message_events(x) + tail);
        lemma_reads_split(src, k, message_events(x), tail);
        lemma_message_step(src, k, fuel, acc, x);
        let lx = message_events(x).len();
        lemma_messages_read_back(src, k + lx, (fuel - lx) as nat, acc.push(x), rest, g);
        assert(acc.push(x) + rest =~= acc + ms);
    }
}

/// The events of component definitions, then `</components>`, read back as
/// them.
proof fn lemma_components_read_back(
    src: EventSourceView,
    k: nat,
    fuel: nat,
    acc: Seq<ComponentSpecModel>,
    cs: Seq<ComponentSpecModel>,
    g: spec_fn(ComponentSpecModel) -> Seq<XmlOutputView>,
)
    requires
        forall|x: ComponentSpecModel| #[trigger] g(x) == component_spec_events(x),
        reads_at(src, k, concat_events(cs, g).push(XmlOutputView::End("components"@))),
        fuel >= concat_events(cs, g).len() + 1,
    ensures
        components_from(src, k, fuel, acc) == Ok::<(Seq<ComponentSpecModel>, nat, nat), FixSpecErrorView>(
            (acc + cs, k + concat_events(cs, g).len() + 1, (fuel - concat_events(cs, g).len() - 1) as nat),
        ),
    decreases cs.len(),
{
    let ev = concat_events(cs, g).push(XmlOutputView::End("components"@));
    if cs.len() == 0 {
        assert(concat_events(cs, g) =~= Seq::<XmlOutputView>::empty());
        lemma_reads_first(src, k, ev);
        assert(acc + cs =~= acc);
    } else {
        let x = cs[0];
        let rest = cs.skip(1);
        assert(cs =~= seq![x] + rest);
        lemma_concat_events_concat(seq![x], rest, g);
        lemma_concat_events_one(x, g);
        let tail = concat_events(rest, g).push(XmlOutputView::End("components"@));
        assert(ev =~= component_spec_events(x) + tail);
        lemma_reads_split(src, k, component_spec_events(x), tail);
        lemma_component_step(src, k, fuel, acc, x);
        let lx = component_spec_events(x).len();
        lemma_components_read_back(src, k + lx, (fuel - lx) as nat, acc.push(x), rest, g);
        assert(acc.push(x) + rest =~= acc + cs);
    }
}

proof fn lemma_section_tags_differ()
    ensures
        encode_utf8("header"@) != encode_utf8("messages"@),
        encode_utf8("header"@) != encode_utf8("trailer"@),
        encode_utf8("header"@) != encode_utf8("components"@),
        encode_utf8("header"@) != encode_utf8("fields"@),
        encode_utf8("messages"@) != encode_utf8("trailer"@),
        encode_utf8("messages"@) != encode_utf8("components"@),
        encode_utf8("messages"@) != encode_utf8("fields"@),
        encode_utf8("trailer"@) != encode_utf8("components"@),
        encode_utf8("trailer"@) != encode_utf8("fields"@),
        encode_utf8("components"@) != encode_utf8("fields"@),
{
    reveal_strlit("header");
    reveal_strlit("messages");
    reveal_strlit("trailer");
    reveal_strlit("components");
    reveal_strlit("fields");
    assert("header"@[0] != "fields"@[0]);
    lemma_encode_injective("header"@, "messages"@);
    lemma_encode_injective("header"@, "trailer"@);
    lemma_encode_injective("header"@, "components"@);
    lemma_encode_injective("header"@, "fields"@);
    lemma_encode_injective("messages"@, "trailer"@);
    lemma_encode_injective("messages"@, "components"@);
    lemma_encode_injective("messages"@, "fields"@);
    lemma_encode_injective("trailer"@, "components"@);
    lemma_encode_injective("trailer"@, "fields"@);
    lemma_encode_injective("components"@, "fields"@);
}

/// The `header` section, written from `vs`, reads back into the
/// specification being read.
proof fn lemma_header_section(src: EventSourceView, k: nat, fuel: nat, s: FixSpecModel, vs: Seq<FieldValueModel>)
    requires
        reads_at(src, k, element_events(tag_of("header"@, seq![]), vs.len() > 0, values_events(vs))),
        fuel >= element_events(tag_of("header"@, seq![]), vs.len() > 0, values_events(vs)).len(),
        vs.len() == 0 ==> s.headers == vs,
    ensures
        fix_body_from(src, k, fuel, s) == fix_body_from(
            src,
            k + element_events(tag_of("header"@, seq![]), vs.len() > 0, values_events(vs)).len(),
            (fuel - element_events(tag_of("header"@, seq![]), vs.len() > 0, values_events(vs)).len()) as nat,
            FixSpecModel { headers: vs, ..s },
        ),
{
    let t = tag_of("header"@, seq![]);
    let ev = element_events(t, vs.len() > 0, values_events(vs));
    lemma_section_tags_differ();
    if vs.len() > 0 {
        let body = values_events(vs).push(XmlOutputView::End("header"@));
        assert(ev =~= seq![XmlOutputView::Start(t)] + body);
        lemma_reads_split(src, k, seq![XmlOutputView::Start(t)], body);
        lemma_reads_first(src, k, seq![XmlOutputView::Start(t)]);
        lemma_values_read_back(src, k + 1, (fuel - 1) as nat, "header"@, Seq::empty(), vs);
        assert(Seq::<FieldValueModel>::empty() + vs =~= vs);
    } else {
        lemma_reads_first(src, k, ev);
        assert(FixSpecModel { headers: vs, ..s } == s);
    }
}

/// The `messages` section, written from `xs`, reads back into the
/// specification being read.
proof fn lemma_messages_section(
    src: EventSourceView,
    k: nat,
    fuel: nat,
    s: FixSpecModel,
    xs: Seq<MessageSpecModel>,
    g: spec_fn(MessageSpecModel) -> Seq<XmlOutputView>,
)
    requires
        forall|x: MessageSpecModel| #[trigger] g(x) == message_events(x),
        reads_at(src, k, element_events(tag_of("messages"@, seq![]), xs.len() > 0, concat_events(xs, g))),
        fuel >= element_events(tag_of("messages"@, seq![]), xs.len() > 0, concat_events(xs, g)).len(),
        xs.len() == 0 ==> s.messages == xs,
    ensures
        fix_body_from(src, k, fuel, s) == fix_body_from(
            src,
            k + element_events(tag_of("messages"@, seq![]), xs.len() > 0, concat_events(xs, g)).len(),
            (fuel - element_events(tag_of("messages"@, seq![]), xs.len() > 0, concat_events(xs, g)).len()) as nat,
            FixSpecModel { messages: xs, ..s },
        ),
{
    let t = tag_of("messages"@, seq![]);
    let ev = element_events(t, xs.len() > 0, concat_events(xs, g));
    lemma_section_tags_differ();
    if xs.len() > 0 {
        let body = concat_events(xs, g).push(XmlOutputView::End("messages"@));
        assert(ev =~= seq![XmlOutputView::Start(t)] + body);
        lemma_reads_split(src, k, seq![XmlOutputView::Start(t)], body);
        lemma_reads_first(src, k, seq![XmlOutputView::Start(t)]);
        lemma_messages_read_back(src, k + 1, (fuel - 1) as nat, Seq::empty(), xs, g);
        assert(Seq::<MessageSpecModel>::empty() + xs =~= xs);
    } else {
        lemma_reads_first(src, k, ev);
        assert(FixSpecModel { messages: xs, ..s } == s);
    }
}

/// The `trailer` section, written from `vs`, reads back into the
/// specification being read.
proof fn lemma_trailer_section(src: EventSourceView, k: nat, fuel: nat, s: FixSpecModel, vs: Seq<FieldValueModel>)
    requires
        reads_at(src, k, element_events(tag_of("trailer"@, seq![]), vs.len() > 0, values_events(vs))),
        fuel >= element_events(tag_of("trailer"@, seq![]), vs.len() > 0, values_events(vs)).len(),
        vs.len() == 0 ==> s.trailers == vs,
    ensures
        fix_body_from(src, k, fuel, s) == fix_body_from(
            src,
            k + element_events(tag_of("trailer"@, seq![]), vs.len() > 0, values_events(vs)).len(),
            (fuel - element_events(tag_of("trailer"@, seq![]), vs.len() > 0, values_events(vs)).len()) as nat,
            FixSpecModel { trailers: vs, ..s },
        ),
{
    let t = tag_of("trailer"@, seq![]);
    let ev = element_events(t, vs.len() > 0, values_events(vs));
    lemma_section_tags_differ();
    if vs.len() > 0 {
        let body = values_events(vs).push(XmlOutputView::End("trailer"@));
        assert(ev =~= seq![XmlOutputView::Start(t)] + body);
        lemma_reads_split(src, k, seq![XmlOutputView::Start(t)], body);
        lemma_reads_first(src, k, seq![XmlOutputView::Start(t)]);
        lemma_values_read_back(src, k + 1, (fuel - 1) as nat, "trailer"@, Seq::empty(), vs);
        assert(Seq::<FieldValueModel>::empty() + vs =~= vs);
    } else {
        lemma_reads_first(src, k, ev);
        assert(FixSpecModel { trailers: vs, ..s } == s);
    }
}

/// The `components` section, written from `xs`, reads back into the
/// specification being read.
proof fn lemma_components_section(
    src: EventSourceView,
    k: nat,
    fuel: nat,
    s: FixSpecModel,
    xs: Seq<ComponentSpecModel>,
    g: spec_fn(ComponentSpecModel) -> Seq<XmlOutputView>,
)
    requires
        forall|x: ComponentSpecModel| #[trigger] g(x) == component_spec_events(x),
        reads_at(src, k, element_events(tag_of("components"@, seq![]), xs.len() > 0, concat_events(xs, g))),
        fuel >= element_events(tag_of("components"@, seq![]), xs.len() > 0, concat_events(xs, g)).len(),
        xs.len() == 0 ==> s.component_specs == xs,
    ensures
        fix_body_from(src, k, fuel, s) == fix_body_from(
            src,
            k + element_events(tag_of("components"@, seq![]), xs.len() > 0, concat_events(xs, g)).len(),
            (fuel - element_events(tag_of("components"@, seq![]), xs.len() > 0, concat_events(xs, g)).len()) as nat,
            FixSpecModel { component_specs: xs, ..s },
        ),
{
    let t = tag_of("components"@, seq![]);
    let ev = element_events(t, xs.len() > 0, concat_events(xs, g));
    lemma_section_tags_differ();
    if xs.len() > 0 {
        let body = concat_events(xs, g).push(XmlOutputView::End("components"@));
        assert(ev =~= seq![XmlOutputView::Start(t)] + body);
        lemma_reads_split(src, k, seq![XmlOutputView::Start(t)], body);
        lemma_reads_first(src, k, seq![XmlOutputView::Start(t)]);
        lemma_components_read_back(src, k + 1, (fuel - 1) as nat, Seq::empty(), xs, g);
        assert(Seq::<ComponentSpecModel>::empty() + xs =~= xs);
    } else {
        lemma_reads_first(src, k, ev);
        assert(FixSpecModel { component_specs: xs, ..s } == s);
    }
}

/// The `fields` section, written from `xs`, reads back into the
/// specification being read.
proof fn lemma_fields_section(
    src: EventSourceView,
    k: nat,
    fuel: nat,
    s: FixSpecModel,
    xs: Seq<FieldSpecModel>,
    g: spec_fn(FieldSpecModel) -> Seq<XmlOutputView>,
)
    requires
        forall|x: FieldSpecModel| #[trigger] g(x) == field_spec_events(x),
        reads_at(src, k, element_events(tag_of("fields"@, seq![]), xs.len() > 0, concat_events(xs, g))),
        fuel >= element_events(tag_of("fields"@, seq![]), xs.len() > 0, concat_events(xs, g)).len(),
        xs.len() == 0 ==> s.field_specs == xs,
    ensures
        fix_body_from(src, k, fuel, s) == fix_body_from(
            src,
            k + element_events(tag_of("fields"@, seq![]), xs.len() > 0, concat_events(xs, g)).len(),
            (fuel - element_events(tag_of("fields"@, seq![]), xs.len() > 0, concat_events(xs, g)).len()) as nat,
            FixSpecModel { field_specs: xs, ..s },
        ),
{
    let t = tag_of("fields"@, seq![]);
    let ev = element_events(t, xs.len() > 0, concat_events(xs, g));
    lemma_section_tags_differ();
    if xs.len() > 0 {
        let body = concat_events(xs, g).push(XmlOutputView::End("fields"@));
        assert(ev =~= seq![XmlOutputView::Start(t)] + body);
        lemma_reads_split(src, k, seq![XmlOutputView::Start(t)], body);
        lemma_reads_first(src, k, seq![XmlOutputView::Start(t)]);
        lemma_field_specs_read_back(src, k + 1, (fuel - 1) as nat, Seq::empty(), xs, g);
        assert(Seq::<FieldSpecModel>::empty() + xs =~= xs);
    } else {
        lemma_reads_first(src, k, ev);
        assert(FixSpecModel { field_specs: xs, ..s } == s);
    }
}

/// The start of the root element, as written for `m`.
spec fn written_root(m: FixSpecModel) -> Seq<XmlOutputView> {
    seq![
        XmlOutputView::Start(
            tag_of(
                "fix"@,
                seq![
                    ("type"@, if m.is_fixt { "FIXT"@ } else { "FIX"@ }),
                    ("major"@, decimal_digits(m.version.0 as nat)),
                    ("minor"@, decimal_digits(m.version.1 as nat)),
                    ("servicepack"@, decimal_digits(m.version.2 as nat)),
                ],
            ),
        ),
    ]
}

spec fn written_header(m: FixSpecModel) -> Seq<XmlOutputView> {
    element_events(tag_of("header"@, seq![]), m.headers.len() > 0, values_events(m.headers))
}

spec fn written_messages(m: FixSpecModel) -> Seq<XmlOutputView> {
    element_events(
        tag_of("messages"@, seq![]),
        m.messages.len() > 0,
        concat_events(m.messages, |x: MessageSpecModel| message_events(x)),
    )
}

spec fn written_trailer(m: FixSpecModel) -> Seq<XmlOutputView> {
    element_events(tag_of("trailer"@, seq![]), m.trailers.len() > 0, values_events(m.trailers))
}

spec fn written_components(m: FixSpecModel) -> Seq<XmlOutputView> {
    element_events(
        tag_of("components"@, seq![]),
        m.component_specs.len() > 0,
        concat_events(m.component_specs, |x: ComponentSpecModel| component_spec_events(x)),
    )
}

spec fn written_fields(m: FixSpecModel) -> Seq<XmlOutputView> {
    element_events(
        tag_of("fields"@, seq![]),
        m.field_specs.len() > 0,
        concat_events(m.field_specs, |x: FieldSpecModel| field_spec_events(x)),
    )
}

/// Where each section's events start.
spec fn section_start(m: FixSpecModel, i: int) -> nat {
    let o1 = written_root(m).len();
    let o2 = o1 + written_header(m).len();
    let o3 = o2 + written_messages(m).len();
    let o4 = o3 + written_trailer(m).len();
    let o5 = o4 + written_components(m).len();
    let o6 = o5 + written_fields(m).len();
    if i <= 1 {
        o1
    } else if i == 2 {
        o2
    } else if i == 3 {
        o3
    } else if i == 4 {
        o4
    } else if i == 5 {
        o5
    } else {
        o6
    }
}

proof fn lemma_written_sections(src: EventSourceView, m: FixSpecModel)
    requires
        reads_at(src, 0, fix_events(m)),
    ensures
        reads_at(src, 0, written_root(m)),
        reads_at(src, section_start(m, 1), written_header(m)),
        reads_at(src, section_start(m, 2), written_messages(m)),
        reads_at(src, section_start(m, 3), written_trailer(m)),
        reads_at(src, section_start(m, 4), written_components(m)),
        reads_at(src, section_start(m, 5), written_fields(m)),
        reads_at(src, section_start(m, 6), seq![XmlOutputView::End("fix"@)]),
        section_start(m, 6) + 1 == fix_events(m).len(),
{
    let p1 = written_root(m) + written_header(m);
    let p2 = p1 + written_messages(m);
    let p3 = p2 + written_trailer(m);
    let p4 = p3 + written_components(m);
    let p5 = p4 + written_fields(m);
    let en = seq![XmlOutputView::End("fix"@)];
    assert(fix_events(m) == p5 + en);
    lemma_reads_split(src, 0, p5, en);
    lemma_reads_split(src, 0, p4, written_fields(m));
    lemma_reads_split(src, 0, p3, written_components(m));
    lemma_reads_split(src, 0, p2, written_trailer(m));
    lemma_reads_split(src, 0, p1, written_messages(m));
    lemma_reads_split(src, 0, written_root(m), written_header(m));
}

/// What has been read of `m` once its first `i` sections are read.
spec fn body_state(m: FixSpecModel, i: int) -> FixSpecModel {
    FixSpecModel {
        version: m.version,
        is_fixt: m.is_fixt,
        headers: if i >= 1 { m.headers } else { Seq::empty() },
        messages: if i >= 2 { m.messages } else { Seq::empty() },
        trailers: if i >= 3 { m.trailers } else { Seq::empty() },
        component_specs: if i >= 4 { m.component_specs } else { Seq::empty() },
        field_specs: if i >= 5 { m.field_specs } else { Seq::empty() },
    }
}

/// The reads left at the start of section `i`, of `n` after the root.
spec fn body_fuel(m: FixSpecModel, n: nat, i: int) -> nat {
    (n - (section_start(m, i) - 1)) as nat
}

/// The reader hands out each section written for `m`, and `</fix>`, where it
/// starts, and `n` reads cover them.
spec fn sections_read_back(src: EventSourceView, m: FixSpecModel, n: nat) -> bool {
    &&& reads_at(src, section_start(m, 1), written_header(m))
    &&& reads_at(src, section_start(m, 2), written_messages(m))
    &&& reads_at(src, section_start(m, 3), written_trailer(m))
    &&& reads_at(src, section_start(m, 4), written_components(m))
    &&& reads_at(src, section_start(m, 5), written_fields(m))
    &&& reads_at(src, section_start(m, 6), seq![XmlOutputView::End("fix"@)])
    &&& section_start(m, 6) <= n
}

proof fn lemma_body_step_1(src: EventSourceView, m: FixSpecModel, n: nat)
    requires
        reads_at(src, section_start(m, 1), written_header(m)),
        section_start(m, 6) <= n,
    ensures
        fix_body_from(src, section_start(m, 1), body_fuel(m, n, 1), body_state(m, 0)) == fix_body_from(
            src,
            section_start(m, 2),
            body_fuel(m, n, 2),
            body_state(m, 1),
        ),
{
    assert(m.headers.len() == 0 ==> body_state(m, 0).headers =~= m.headers);
    lemma_header_section(src, section_start(m, 1), body_fuel(m, n, 1), body_state(m, 0), m.headers);
    assert(FixSpecModel { headers: m.headers, ..body_state(m, 0) } == body_state(m, 1));
}

proof fn lemma_body_step_2(src: EventSourceView, m: FixSpecModel, n: nat)
    requires
        reads_at(src, section_start(m, 2), written_messages(m)),
        section_start(m, 6) <= n,
    ensures
        fix_body_from(src, section_start(m, 2), body_fuel(m, n, 2), body_state(m, 1)) == fix_body_from(
            src,
            section_start(m, 3),
            body_fuel(m, n, 3),
            body_state(m, 2),
        ),
{
    assert(m.messages.len() == 0 ==> body_state(m, 1).messages =~= m.messages);
    lemma_messages_section(src, section_start(m, 2), body_fuel(m, n, 2), body_state(m, 1), m.messages, |x: MessageSpecModel| message_events(x));
    assert(FixSpecModel { messages: m.messages, ..body_state(m, 1) } == body_state(m, 2));
}

proof fn lemma_body_step_3(src: EventSourceView, m: FixSpecModel, n: nat)
    requires
        reads_at(src, section_start(m, 3), written_trailer(m)),
        section_start(m, 6) <= n,
    ensures
        fix_body_from(src, section_start(m, 3), body_fuel(m, n, 3), body_state(m, 2)) == fix_body_from(
            src,
            section_start(m, 4),
            body_fuel(m, n, 4),
            body_state(m, 3),
        ),
{
    assert(m.trailers.len() == 0 ==> body_state(m, 2).trailers =~= m.trailers);
    lemma_trailer_section(src, section_start(m, 3), body_fuel(m, n, 3), body_state(m, 2), m.trailers);
    assert(FixSpecModel { trailers: m.trailers, ..body_state(m, 2) } == body_state(m, 3));
}

proof fn lemma_body_step_4(src: EventSourceView, m: FixSpecModel, n: nat)
    requires
        reads_at(src, section_start(m, 4), written_components(m)),
        section_start(m, 6) <= n,
    ensures
        fix_body_from(src, section_start(m, 4), body_fuel(m, n, 4), body_state(m, 3)) == fix_body_from(
            src,
            section_start(m, 5),
            body_fuel(m, n, 5),
            body_state(m, 4),
        ),
{
    assert(m.component_specs.len() == 0 ==> body_state(m, 3).component_specs =~= m.component_specs);
    lemma_components_section(src, section_start(m, 4), body_fuel(m, n, 4), body_state(m, 3), m.component_specs, |x: ComponentSpecModel| component_spec_events(x));
    assert(FixSpecModel { component_specs: m.component_specs, ..body_state(m, 3) } == body_state(m, 4));
}

proof fn lemma_body_step_5(src: EventSourceView, m: FixSpecModel, n: nat)
    requires
        reads_at(src, section_start(m, 5), written_fields(m)),
        section_start(m, 6) <= n,
    ensures
        fix_body_from(src, section_start(m, 5), body_fuel(m, n, 5), body_state(m, 4)) == fix_body_from(
            src,
            section_start(m, 6),
            body_fuel(m, n, 6),
            body_state(m, 5),
        ),
{
    assert(m.field_specs.len() == 0 ==> body_state(m, 4).field_specs =~= m.field_specs);
    lemma_fields_section(src, section_start(m, 5), body_fuel(m, n, 5), body_state(m, 4), m.field_specs, |x: FieldSpecModel| field_spec_events(x));
    assert(FixSpecModel { field_specs: m.field_specs, ..body_state(m, 4) } == body_state(m, 5));
}

/// The sections written for `m` from section `i` on, then `</fix>`, read back
/// as `m`'s sections.
proof fn lemma_written_body(src: EventSourceView, m: FixSpecModel, n: nat, i: int)
    requires
        sections_read_back(src, m, n),
        1 <= i <= 6,
    ensures
        fix_body_from(src, section_start(m, i), body_fuel(m, n, i), body_state(m, i - 1)) matches Ok((r, _, _)) && r
            == m,
    decreases 6 - i,
{
    if i == 6 {
        assert(body_state(m, 5) == m);
        lemma_reads_first(src, section_start(m, 6), seq![XmlOutputView::End("fix"@)]);
    } else {
        if i == 1 {
            lemma_body_step_1(src, m, n);
        } else if i == 2 {
            lemma_body_step_2(src, m, n);
        } else if i == 3 {
            lemma_body_step_3(src, m, n);
        } else if i == 4 {
            lemma_body_step_4(src, m, n);
        } else {
            lemma_body_step_5(src, m, n);
        }
        lemma_written_body(src, m, n, i + 1);
    }
}

/// Reading what was written gives the specification back: from any source of
/// events that hands out, read after read, each event that `write_spec` writes
/// for `m`, in the form it has when no name or value needs escaping (the UTF-8
/// bytes of each tag name, attribute key and attribute value), with a read
/// allowed for each of them, the specification read is `m`.
pub proof fn written_events_read_back(m: FixSpecModel, src: EventSourceView, fuel: nat)
    requires
        reads_at(src, 0, fix_events(m)),
        fix_events(m).len() <= fuel,
    ensures
        parsed_from(src, fuel) == Ok::<FixSpecModel, FixSpecErrorView>(m),
{
    lemma_written_sections(src, m);
    lemma_reads_first(src, 0, written_root(m));
    reveal_strlit("fix");
    lemma_fix_node_reads_back(m);
    lemma_written_body(src, m, fuel, 1);
    assert(body_state(m, 0).headers =~= Seq::<FieldValueModel>::empty());
}

/// The same for a document: where the reader hands out, read after read, the
/// read form of each event that `write_spec` writes for `m`, and the document
/// has at least one byte per event, `parsed_spec` gives `m`.
pub proof fn written_spec_reads_back(m: FixSpecModel, input: Seq<u8>)
    requires
        reads_at(EventSourceView::Document(input), 0, fix_events(m)),
        fix_events(m).len() <= input.len(),
    ensures
        parsed_spec(input) == Ok::<FixSpecModel, FixSpecErrorView>(m),
{
    written_events_read_back(m, EventSourceView::Document(input), input.len());
}

/// The same for a list: the read forms of the events written for `m`, as a
/// list of events, read back as `m`.
pub proof fn written_event_list_reads_back(m: FixSpecModel)
    ensures
        parsed_events(fix_events(m).map_values(|e: XmlOutputView| Ok::<XmlEventView, Seq<char>>(read_form(e))))
            == Ok::<FixSpecModel, FixSpecErrorView>(m),
{
    let s = fix_events(m).map_values(|e: XmlOutputView| Ok::<XmlEventView, Seq<char>>(read_form(e)));
    let src = EventSourceView::Listed(s);
    assert forall|j: int| 0 <= j < fix_events(m).len() implies source_event(src, (0 + j) as nat) == Ok::<
        XmlEventView,
        Seq<char>,
    >(read_form(#[trigger] fix_events(m)[j])) by {
        assert(s[j] == Ok::<XmlEventView, Seq<char>>(read_form(fix_events(m)[j])));
    }
    written_events_read_back(m, src, s.len());
}

} // verus!
