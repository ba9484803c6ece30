//! XML events as plain values, and the quick-xml reader and writer that produce
//! and consume them.

use vstd::prelude::*;
use quick_xml::events::{BytesEnd, BytesStart, Event};
use quick_xml::{Reader, Writer};
use bytes::Bytes;
use vstd::string::StringSliceAdditionalSpecFns;

verus! {

#[verifier::external_type_specification]
#[verifier::external_body]
#[verifier::reject_recursive_types(R)]
pub struct ExXmlReader<R>(Reader<R>);

#[verifier::external_type_specification]
#[verifier::external_body]
#[verifier::reject_recursive_types(W)]
pub struct ExXmlWriter<W>(Writer<W>);

#[verifier::external_type_specification]
#[verifier::external_body]
pub struct ExBytes(Bytes);

#[verifier::external_type_specification]
#[verifier::external_body]
pub struct ExIoError(std::io::Error);

/// An attribute of an element as it stands in the document: its key and its raw
/// (not unescaped) value.
pub struct XmlAttribute {
    pub key: Vec<u8>,
    pub value: Vec<u8>,
}

/// A start or empty element tag: its name and its attributes in order, `None`
/// standing for an attribute that could not be read.
pub struct XmlElement {
    pub name: Vec<u8>,
    pub attributes: Vec<Option<XmlAttribute>>,
}

/// What the reader hands out: a start tag, an empty element, an end tag, the end
/// of the document, or anything else (text, comments, declarations...).
pub enum XmlEvent {
    Start(XmlElement),
    Empty(XmlElement),
    End(Vec<u8>),
    Eof,
    Other,
}

/// An element as plain values.
pub struct XmlElementView {
    pub name: Seq<u8>,
    pub attributes: Seq<Option<(Seq<u8>, Seq<u8>)>>,
}

/// An event as plain values.
pub enum XmlEventView {
    Start(XmlElementView),
    Empty(XmlElementView),
    End(Seq<u8>),
    Eof,
    Other,
}

/// The plain value of an attribute slot.
pub open spec fn attribute_view(a: Option<XmlAttribute>) -> Option<(Seq<u8>, Seq<u8>)> {
    match a {
        Some(x) => Some((x.key@, x.value@)),
        None => None,
    }
}

impl View for XmlElement {
    type V = XmlElementView;

    open spec fn view(&self) -> XmlElementView {
        XmlElementView {
            name: self.name@,
            attributes: self.attributes@.map_values(|a: Option<XmlAttribute>| attribute_view(a)),
        }
    }
}

impl View for XmlEvent {
    type V = XmlEventView;

    open spec fn view(&self) -> XmlEventView {
        match self {
            XmlEvent::Start(e) => XmlEventView::Start(e@),
            XmlEvent::Empty(e) => XmlEventView::Empty(e@),
            XmlEvent::End(n) => XmlEventView::End(n@),
            XmlEvent::Eof => XmlEventView::Eof,
            XmlEvent::Other => XmlEventView::Other,
        }
    }
}

/// The plain value of what one read gives: an event, or the reader's error text.
pub open spec fn read_view(r: Result<XmlEvent, String>) -> Result<XmlEventView, Seq<char>> {
    match r {
        Ok(e) => Ok(e@),
        Err(m) => Err(m@),
    }
}

/// A tag to write: its name and its attributes as (key, unescaped value) pairs.
pub struct XmlTag {
    pub name: String,
    pub attributes: Vec<(String, String)>,
}

/// What the writer is handed: a start tag, an empty element or an end tag.
pub enum XmlOutput {
    Start(XmlTag),
    Empty(XmlTag),
    End(String),
}

/// A tag to write, as plain values.
pub struct XmlTagView {
    pub name: Seq<char>,
    pub attributes: Seq<(Seq<char>, Seq<char>)>,
}

/// An event to write, as plain values.
pub enum XmlOutputView {
    Start(XmlTagView),
    Empty(XmlTagView),
    End(Seq<char>),
}

impl View for XmlTag {
    type V = XmlTagView;

    open spec fn view(&self) -> XmlTagView {
        XmlTagView {
            name: self.name@,
            attributes: self.attributes@.map_values(|a: (String, String)| (a.0@, a.1@)),
        }
    }
}

impl View for XmlOutput {
    type V = XmlOutputView;

    open spec fn view(&self) -> XmlOutputView {
        match self {
            XmlOutput::Start(t) => XmlOutputView::Start(t@),
            XmlOutput::Empty(t) => XmlOutputView::Empty(t@),
            XmlOutput::End(n) => XmlOutputView::End(n@),
        }
    }
}

/// The document a reader reads.
pub uninterp spec fn reader_input(r: Reader<&[u8]>) -> Seq<u8>;

/// How many events a reader has handed out.
pub uninterp spec fn reader_position(r: Reader<&[u8]>) -> nat;

/// The event (or error text) that the read numbered `index` gives on a document,
/// for a reader that trims the whitespace around texts.
pub uninterp spec fn xml_event(input: Seq<u8>, index: nat) -> Result<XmlEventView, Seq<char>>;

/// The events a writer has been handed.
pub uninterp spec fn writer_events(w: Writer<Vec<u8>>) -> Seq<XmlOutputView>;

/// The bytes that an indenting writer (one space per level) makes of a run of
/// events.
pub uninterp spec fn xml_text(events: Seq<XmlOutputView>) -> Seq<u8>;

/// The bytes that a `Bytes` holds.
pub uninterp spec fn bytes_content(b: Bytes) -> Seq<u8>;

/// `Reader::from_reader` on the document, with `trim_text(true)` set in its
/// configuration. The contract claims that the new reader reads that document
/// and has handed out no event yet.
#[verifier::external_body]
pub(crate) fn new_reader<'a>(input: &'a [u8]) -> (r: Reader<&'a [u8]>)
    ensures
        reader_input(r) == input@,
        reader_position(r) == 0,
{
    let mut reader = Reader::from_reader(input);
    reader.config_mut().trim_text(true);
    reader
}

/// `Reader::read_event`: the next event, converted to plain values (an element's
/// name and attributes copied out, each attribute that the attribute iterator
/// reports as an error kept as `None`), or the reader's error as text. The
/// contract claims that the result is the event numbered by how many events the
/// reader handed out before, on the reader's document: quick-xml reads a byte
/// slice deterministically.
#[verifier::external_body]
pub(crate) fn read_event(reader: &mut Reader<&[u8]>) -> (r: Result<XmlEvent, String>)
    ensures
        reader_input(*final(reader)) == reader_input(*old(reader)),
        reader_position(*final(reader)) == reader_position(*old(reader)) + 1,
        read_view(r) == xml_event(reader_input(*old(reader)), reader_position(*old(reader))),
{
    let el = |e: BytesStart| XmlElement {
        name: e.name().as_ref().to_vec(),
        attributes: e.attributes().map(|a| a.ok().map(|a| XmlAttribute { key: a.key.as_ref().to_vec(), value: a.value.to_vec() })).collect(),
    };
    Ok(match reader.read_event().map_err(|e| e.to_string())? {
        Event::Start(e) => XmlEvent::Start(el(e)),
        Event::Empty(e) => XmlEvent::Empty(el(e)),
        Event::End(e) => XmlEvent::End(e.name().as_ref().to_vec()),
        Event::Eof => XmlEvent::Eof,
        _ => XmlEvent::Other,
    })
}

/// `Writer::new_with_indent` over an empty vector, indenting by one space per
/// level. The contract claims that nothing has been written yet.
#[verifier::external_body]
pub(crate) fn new_writer() -> (r: Writer<Vec<u8>>)
    ensures
        writer_events(r) == Seq::<XmlOutputView>::empty(),
{
    Writer::new_with_indent(Vec::new(), b' ', 1)
}

/// `Writer::write_event` of a start tag (its attributes pushed in order, each
/// value escaped as `Attribute::from((&str, &str))` does), an empty element or an
/// end tag. The contract claims that the write succeeds and the event is the
/// writer's last: quick-xml's `write_event` fails only where the writer under it
/// fails (its source writes these events through `write_all` and nothing else),
/// and the standard library documents writing to a `Vec<u8>` as appending to the
/// vector, which grows as needed.
#[verifier::external_body]
pub(crate) fn write_event(writer: &mut Writer<Vec<u8>>, event: &XmlOutput) -> (r: Result<(), std::io::Error>)
    ensures
        r is Ok,
        writer_events(*final(writer)) == writer_events(*old(writer)).push(event@),
{
    match event {
        XmlOutput::End(n) => writer.write_event(Event::End(BytesEnd::new(n.as_str()))),
        XmlOutput::Start(t) | XmlOutput::Empty(t) => {
            let e = BytesStart::new(t.name.as_str())
                .with_attributes(t.attributes.iter().map(|(k, v)| (k.as_str(), v.as_str())));
            match event {
                XmlOutput::Start(_) => writer.write_event(Event::Start(e)),
                _ => writer.write_event(Event::Empty(e)),
            }
        },
    }
}

/// `Writer::into_inner`: the bytes written. The contract claims that they are the
/// text of the events the writer was handed.
#[verifier::external_body]
pub(crate) fn writer_bytes(writer: Writer<Vec<u8>>) -> (r: Vec<u8>)
    ensures
        r@ == xml_text(writer_events(writer)),
{
    writer.into_inner()
}

/// `Bytes::from` a vector. The contract claims that it holds the vector's bytes.
#[verifier::external_body]
pub(crate) fn bytes_from_vec(v: Vec<u8>) -> (r: Bytes)
    ensures
        bytes_content(r) == v@,
{
    Bytes::from(v)
}

// ---------------------------------------------------------------------------
// Event streams
// ---------------------------------------------------------------------------

/// Where events come from: a document that the reader reads, or events already
/// read (each an event or a reader's error text), after which the document ends.
pub enum EventSourceView {
    Document(Seq<u8>),
    Listed(Seq<Result<XmlEventView, Seq<char>>>),
}

/// The event of read number `k` from a source.
pub open spec fn source_event(src: EventSourceView, k: nat) -> Result<XmlEventView, Seq<char>> {
    match src {
        EventSourceView::Document(b) => xml_event(b, k),
        EventSourceView::Listed(s) => if k < s.len() {
            s[k as int]
        } else {
            Ok(XmlEventView::Eof)
        },
    }
}

/// The plain values of a list of reads.
pub open spec fn reads_view(v: Seq<Result<XmlEvent, String>>) -> Seq<Result<XmlEventView, Seq<char>>> {
    v.map_values(|r: Result<XmlEvent, String>| read_view(r))
}

/// A stream of events: a reader over a document, or a list of events.
pub struct EventStream<'a> {
    reader: Option<Reader<&'a [u8]>>,
    events: &'a [Result<XmlEvent, String>],
    index: usize,
    past_end: Ghost<nat>,
}

impl<'a> EventStream<'a> {
    /// A list's position is within the list, and reads past its end are counted
    /// only once it is used up.
    pub closed spec fn wf(self) -> bool {
        &&& self.index <= self.events@.len()
        &&& self.past_end@ > 0 ==> self.index == self.events@.len()
    }

    /// Where the stream's events come from.
    pub closed spec fn source(self) -> EventSourceView {
        match self.reader {
            Some(r) => EventSourceView::Document(reader_input(r)),
            None => EventSourceView::Listed(reads_view(self.events@)),
        }
    }

    /// How many events the stream has handed out.
    pub closed spec fn position(self) -> nat {
        match self.reader {
            Some(r) => reader_position(r),
            None => (self.index + self.past_end@) as nat,
        }
    }

    /// The events of a document, read by quick-xml.
    pub fn of_document(input: &'a [u8]) -> (r: Self)
        ensures
            r.source() == EventSourceView::Document(input@),
            r.position() == 0,
            r.wf(),
    {
        let empty: &'a [Result<XmlEvent, String>] = &[];
        EventStream { reader: Some(new_reader(input)), events: empty, index: 0, past_end: Ghost(0) }
    }

    /// A list of events.
    pub fn of_events(events: &'a [Result<XmlEvent, String>]) -> (r: Self)
        ensures
            r.source() == EventSourceView::Listed(reads_view(events@)),
            r.position() == 0,
            r.wf(),
    {
        EventStream { reader: None, events, index: 0, past_end: Ghost(0) }
    }

    /// The next event.
    pub fn next(&mut self) -> (r: Result<XmlEvent, String>)
        requires
            old(self).wf(),
        ensures
            final(self).wf(),
            final(self).source() == old(self).source(),
            final(self).position() == old(self).position() + 1,
            read_view(r) == source_event(old(self).source(), old(self).position()),
    {
        match self.reader.take() {
            Some(mut reader) => {
                let r = read_event(&mut reader);
                self.reader = Some(reader);
                r
            },
            None => {
                if self.index < self.events.len() {
                    let r = copy_read(&self.events[self.index]);
                    self.index = self.index + 1;
                    r
                } else {
                    self.past_end = Ghost(self.past_end@ + 1);
                    Ok(XmlEvent::Eof)
                }
            },
        }
    }
}

fn copy_bytes(v: &Vec<u8>) -> (r: Vec<u8>)
    ensures
        r@ == v@,
{
    let mut r: Vec<u8> = Vec::new();
    let mut i: usize = 0;
    while i < v.len()
        invariant
            i <= v@.len(),
            r@ == v@.take(i as int),
        decreases v@.len() - i,
    {
        r.push(v[i]);
        i += 1;
        assert(r@ =~= v@.take(i as int));
    }
    assert(v@.take(i as int) =~= v@);
    r
}

fn copy_element(e: &XmlElement) -> (r: XmlElement)
    ensures
        r@ == e@,
{
    let mut attributes: Vec<Option<XmlAttribute>> = Vec::new();
    let mut i: usize = 0;
    while i < e.attributes.len()
        invariant
            i <= e.attributes@.len(),
            attributes@.len() == i,
            forall|k: int| 0 <= k < i ==> attribute_view(#[trigger] attributes@[k]) == attribute_view(e.attributes@[k]),
        decreases e.attributes@.len() - i,
    {
        let a = match &e.attributes[i] {
            Some(x) => Some(XmlAttribute { key: copy_bytes(&x.key), value: copy_bytes(&x.value) }),
            None => None,
        };
        attributes.push(a);
        i += 1;
    }
    let r = XmlElement { name: copy_bytes(&e.name), attributes };
    assert(r@.attributes =~= e@.attributes);
    r
}

fn copy_read(x: &Result<XmlEvent, String>) -> (r: Result<XmlEvent, String>)
    ensures
        read_view(r) == read_view(*x),
{
    match x {
        Ok(XmlEvent::Start(e)) => Ok(XmlEvent::Start(copy_element(e))),
        Ok(XmlEvent::Empty(e)) => Ok(XmlEvent::Empty(copy_element(e))),
        Ok(XmlEvent::End(n)) => Ok(XmlEvent::End(copy_bytes(n))),
        Ok(XmlEvent::Eof) => Ok(XmlEvent::Eof),
        Ok(XmlEvent::Other) => Ok(XmlEvent::Other),
        Err(m) => Err(m.clone()),
    }
}

/// Whether a byte string is the UTF-8 encoding of a text.
pub fn bytes_are(b: &[u8], text: &str) -> (r: bool)
    ensures
        r == (b@ == text.spec_bytes()),
{
    let t = text.as_bytes();
    if b.len() != t.len() {
        return false;
    }
    let mut i: usize = 0;
    while i < b.len()
        invariant
            b@.len() == t@.len(),
            t@ == text.spec_bytes(),
            i <= b@.len(),
            forall|k: int| 0 <= k < i ==> b@[k] == t@[k],
        decreases b@.len() - i,
    {
        if b[i] != t[i] {
            return false;
        }
        i += 1;
    }
    assert(b@ =~= t@);
    true
}

} // verus!
