//! The events of an XML part, as plain values.

use crate::value::same_text;
use quick_xml::events::Event;
use quick_xml::Reader;
use std::io::Cursor;
use vstd::prelude::*;

verus! {

/// The reader of one part, with the part's bytes inside it: a `Reader` of
/// quick-xml over those bytes, the event that it has read last, and
/// whether that reading failed. What is known of it here is which events it
/// has yet to hand out, and which it handed out last.
#[verifier::external_body]
pub struct XmlReader {
    inner: Reader<Cursor<Vec<u8>>>,
    event: Event<'static>,
    failed: bool,
}

/// The kinds of event that a reader hands out.
#[derive(Clone, Copy, Debug, PartialEq, Eq, Structural)]
pub enum EventKind {
    Start,
    Empty,
    End,
    Text,
    Eof,
    Other,
}

/// One attribute of a tag: its key and its value as written, escapes and
/// all.
#[derive(Clone, Debug, PartialEq, Eq)]
pub struct Attribute {
    pub key: String,
    pub value: String,
}

/// A tag: its name and its attributes in the order written.
#[derive(Clone, Debug, PartialEq, Eq)]
pub struct Element {
    pub name: String,
    pub attributes: Vec<Attribute>,
}

/// Character data: the text with its escapes resolved, and the bytes as
/// they stand in the part.
#[derive(Clone, Debug, PartialEq, Eq)]
pub struct Text {
    pub text: String,
    pub raw: Vec<u8>,
}

/// One event of a part.
#[derive(Clone, Debug, PartialEq, Eq)]
pub enum XmlEvent {
    /// `<name ...>`
    Start(Element),
    /// `<name ... />`
    Empty(Element),
    /// `</name>`
    End(String),
    /// Character data between tags.
    Text(Text),
    /// The part has ended.
    Eof,
    /// A comment, a declaration or anything else that carries no data.
    Other,
    /// The part is not well formed; the byte at which that showed.
    Malformed(usize),
}

/// The events of the part `bytes`, in their order, up to its end. With
/// `trim`, white space around character data is dropped. An event that
/// cannot be read, named or decoded stands among them as `Malformed`, and
/// the end of the part is none of them.
pub uninterp spec fn events_in(bytes: Seq<u8>, trim: bool) -> Seq<XmlEvent>;

/// The events that the reader has yet to hand out, up to the end of its
/// part.
pub uninterp spec fn pending(reader: XmlReader) -> Seq<XmlEvent>;

/// The event that the reader has read last, as a plain value: a malformed
/// one, at the byte that the reader has come to, where the reading failed
/// or the event cannot be named or decoded; the end of the part where it
/// has read none, or has read to the end.
pub uninterp spec fn held(reader: XmlReader) -> XmlEvent;

/// An event of the kind `kind`, or none that could be read, gives the
/// plain event `event`: one of that kind, or a malformed one where its
/// name or its text cannot be decoded.
pub open spec fn agrees(kind: Option<EventKind>, event: XmlEvent) -> bool {
    match kind {
        None => event is Malformed,
        Some(EventKind::Start) => event is Start || event is Malformed,
        Some(EventKind::Empty) => event is Empty || event is Malformed,
        Some(EventKind::End) => event is End || event is Malformed,
        Some(EventKind::Text) => event is Text || event is Malformed,
        Some(EventKind::Eof) => event is Eof,
        Some(EventKind::Other) => event is Other,
    }
}

/// The byte of the first malformed event among `events`, if there is one.
pub open spec fn first_fault(events: Seq<XmlEvent>) -> Option<usize>
    decreases events.len(),
{
    if events.len() == 0 {
        None
    } else {
        match events[0] {
            XmlEvent::Malformed(at) => Some(at),
            _ => first_fault(events.skip(1)),
        }
    }
}

/// None of the events is malformed.
pub open spec fn no_fault(events: Seq<XmlEvent>) -> bool {
    forall|i: int| 0 <= i < events.len() ==> !(#[trigger] events[i] is Malformed)
}

/// The first malformed event stands at `k` if none stands before `k`.
pub proof fn lemma_first_fault(events: Seq<XmlEvent>, k: int)
    requires
        0 <= k <= events.len(),
        no_fault(events.take(k)),
    ensures
        k == events.len() ==> first_fault(events) is None,
        k < events.len() ==> first_fault(events) == first_fault(events.skip(k)),
    decreases k,
{
    if k > 0 {
        assert(events.take(k)[0] == events[0]);
        let rest = events.skip(1);
        assert forall|i: int| 0 <= i < k - 1 implies !(#[trigger] rest.take(k - 1)[i]
            is Malformed) by {
            assert(rest.take(k - 1)[i] == events.take(k)[i + 1]);
        }
        lemma_first_fault(rest, k - 1);
        assert(rest.skip(k - 1) == events.skip(k));
    } else {
        assert(events.skip(0) == events);
    }
}

/// The value of the first attribute of `attributes` with the key `key`.
pub open spec fn attribute_of(attributes: Seq<Attribute>, key: Seq<char>) -> Option<Seq<char>>
    decreases attributes.len(),
{
    if attributes.len() == 0 {
        None
    } else if attributes[0].key@ == key {
        Some(attributes[0].value@)
    } else {
        attribute_of(attributes.skip(1), key)
    }
}

/// The value of the first attribute with the key `key`, if there is one.
pub fn get<'a>(attributes: &'a [Attribute], key: &str) -> (r: Option<&'a String>)
    ensures
        r is Some <==> attribute_of(attributes@, key@) is Some,
        r matches Some(v) ==> attribute_of(attributes@, key@) == Some(v@),
{
    let mut i: usize = 0;
    assert(attributes@.skip(0) == attributes@);
    while i < attributes.len()
        invariant
            i <= attributes@.len(),
            attribute_of(attributes@, key@) == attribute_of(attributes@.skip(i as int), key@),
        decreases attributes@.len() - i,
    {
        let ghost rest = attributes@.skip(i as int);
        assert(rest.skip(1) == attributes@.skip(i as int + 1));
        if same_text(attributes[i].key.as_str(), key) {
            return Some(&attributes[i].value);
        }
        i = i + 1;
    }
    None
}

/// `Reader::from_reader` and `Reader::trim_text` of quick-xml: a reader at
/// the start of `xml`, which has all the events of `xml` yet to hand out,
/// no more of them than `xml` has bytes. With `trim` it drops the white
/// space around character data, and character data that is white space
/// only.
#[verifier::external_body]
fn open_reader(xml: Vec<u8>, trim: bool) -> (r: XmlReader)
    ensures
        pending(r) == events_in(xml@, trim),
        pending(r).len() <= xml@.len(),
{
    let mut inner = Reader::from_reader(Cursor::new(xml));
    inner.trim_text(trim);
    XmlReader { inner, event: Event::Eof, failed: false }
}

impl XmlReader {
    /// A reader at the start of the part `xml`, with all the events of
    /// `xml` yet to hand out. With `trim` it drops the white space around
    /// character data.
    pub fn new(xml: Vec<u8>, trim: bool) -> (r: XmlReader)
        ensures
            pending(r) == events_in(xml@, trim),
            pending(r).len() <= xml@.len(),
    {
        open_reader(xml, trim)
    }
}

/// `Reader::read_event` of quick-xml, with `Event::into_owned`: the reader
/// reads its next event and holds it, and the kind of the event is handed
/// out. Where the part is not well formed there, the reader holds that the
/// reading failed, and nothing is handed out. The event held is the first
/// that was pending, and the rest stay pending. A reader with no event
/// pending holds the end of the part.
#[verifier::external_body]
fn advance(reader: &mut XmlReader) -> (kind: Option<EventKind>)
    ensures
        agrees(kind, held(*final(reader))),
        pending(*old(reader)).len() == 0 ==> kind == Some(EventKind::Eof) && pending(
            *final(reader),
        ).len() == 0,
        pending(*old(reader)).len() > 0 ==> !(kind == Some(EventKind::Eof)) && held(
            *final(reader),
        ) == pending(*old(reader))[0] && pending(*final(reader)) == pending(*old(reader)).skip(1),
{
    let mut buf = Vec::new();
    let read = reader.inner.read_event(&mut buf);
    reader.failed = read.is_err();
    reader.event = read.map_or(Event::Eof, |event| event.into_owned());
    let kind = match reader.event {
        Event::Start(_) => EventKind::Start,
        Event::Empty(_) => EventKind::Empty,
        Event::End(_) => EventKind::End,
        Event::Text(_) => EventKind::Text,
        Event::Eof => EventKind::Eof,
        _ => EventKind::Other,
    };
    if reader.failed { None } else { Some(kind) }
}

/// `Reader::buffer_position` of quick-xml: the byte that the reader has
/// come to, which is the byte of the event held where that is malformed.
#[verifier::external_body]
fn reader_position(reader: &XmlReader) -> (at: usize)
    ensures
        held(*reader) matches XmlEvent::Malformed(byte) ==> at == byte,
{
    reader.inner.buffer_position()
}

/// The tag that the event is, where it is an opening tag.
pub open spec fn element_of(event: XmlEvent) -> Option<Element> {
    match event {
        XmlEvent::Start(e) => Some(e),
        XmlEvent::Empty(e) => Some(e),
        _ => None,
    }
}

/// The name that the event closes, where it is a closing tag.
pub open spec fn end_of(event: XmlEvent) -> Option<String> {
    match event {
        XmlEvent::End(name) => Some(name),
        _ => None,
    }
}

/// The character data that the event is, where it is any.
pub open spec fn text_of(event: XmlEvent) -> Option<Text> {
    match event {
        XmlEvent::Text(text) => Some(text),
        _ => None,
    }
}

/// `BytesStart::name` and `BytesStart::attributes` of quick-xml: the name
/// and the attributes, in the order written, of the opening tag that the
/// reader holds; nothing where it holds none, or the name is not UTF-8, or
/// an attribute is malformed, written twice or not UTF-8.
#[verifier::external_body]
fn event_element(reader: &XmlReader) -> (r: Option<Element>)
    ensures
        r == element_of(held(*reader)),
{
    let tag = match &reader.event {
        Event::Start(e) => e,
        Event::Empty(e) => e,
        _ => return None,
    };
    let name = String::from_utf8(tag.name().to_vec()).ok()?;
    let attributes = tag.attributes().map(|a| {
        let a = a.ok()?;
        let key = String::from_utf8(a.key.to_vec()).ok()?;
        Some(Attribute { key, value: String::from_utf8(a.value.into_owned()).ok()? })
    }).collect::<Option<Vec<Attribute>>>()?;
    Some(Element { name, attributes })
}

/// `BytesEnd::name` of quick-xml: the name of the closing tag that the
/// reader holds; nothing where it holds none, or the name is not UTF-8.
#[verifier::external_body]
fn event_end(reader: &XmlReader) -> (r: Option<String>)
    ensures
        r == end_of(held(*reader)),
{
    match &reader.event {
        Event::End(e) => String::from_utf8(e.name().to_vec()).ok(),
        _ => None,
    }
}

/// `BytesText::unescape_and_decode` and `BytesText::escaped` of quick-xml:
/// the character data that the reader holds, with its escapes resolved,
/// beside its bytes as written; nothing where it holds none, or an escape
/// or the encoding is wrong.
#[verifier::external_body]
fn event_text(reader: &XmlReader) -> (r: Option<Text>)
    ensures
        r == text_of(held(*reader)),
{
    match &reader.event {
        Event::Text(e) => match e.unescape_and_decode(&reader.inner) {
            Ok(text) => Some(Text { text, raw: e.escaped().to_vec() }),
            Err(_) => None,
        },
        _ => None,
    }
}

/// The next event of the part as a plain value: the first that the reader
/// had pending, and the rest stay pending. An event that cannot be read,
/// named or decoded comes out as `Malformed`. A reader with no event
/// pending hands out the end of the part.
pub fn next_event(reader: &mut XmlReader) -> (event: XmlEvent)
    ensures
        pending(*old(reader)).len() == 0 ==> event is Eof && pending(*final(reader)).len() == 0,
        pending(*old(reader)).len() > 0 ==> !(event is Eof) && event == pending(*old(reader))[0]
            && pending(*final(reader)) == pending(*old(reader)).skip(1),
{
    match advance(reader) {
        None => XmlEvent::Malformed(reader_position(reader)),
        Some(EventKind::Start) => match event_element(reader) {
            Some(element) => XmlEvent::Start(element),
            None => XmlEvent::Malformed(reader_position(reader)),
        },
        Some(EventKind::Empty) => match event_element(reader) {
            Some(element) => XmlEvent::Empty(element),
            None => XmlEvent::Malformed(reader_position(reader)),
        },
        Some(EventKind::End) => match event_end(reader) {
            Some(name) => XmlEvent::End(name),
            None => XmlEvent::Malformed(reader_position(reader)),
        },
        Some(EventKind::Text) => match event_text(reader) {
            Some(text) => XmlEvent::Text(text),
            None => XmlEvent::Malformed(reader_position(reader)),
        },
        Some(EventKind::Eof) => XmlEvent::Eof,
        Some(EventKind::Other) => XmlEvent::Other,
    }
}

/// What comes of reading the events `events` of a part one by one: all of
/// them, or the byte of the first that is malformed.
pub open spec fn events_read(events: Seq<XmlEvent>, r: Result<Vec<XmlEvent>, usize>) -> bool {
    match first_fault(events) {
        Some(at) => r == Err::<Vec<XmlEvent>, usize>(at),
        None => r matches Ok(read) && read@ == events,
    }
}

/// All the events of a part before its end, or the byte at which the part
/// first showed not to be well formed. With `trim`, white space around
/// character data is dropped.
pub fn read_events(xml: Vec<u8>, trim: bool) -> (r: Result<Vec<XmlEvent>, usize>)
    ensures
        events_read(events_in(xml@, trim), r),
        r matches Ok(events) ==> no_fault(events@) && events@.len() <= xml@.len(),
{
    let mut reader = XmlReader::new(xml, trim);
    let ghost all = pending(reader);
    let mut events: Vec<XmlEvent> = Vec::new();
    let mut ended = false;
    while !ended
        invariant
            all == events_in(xml@, trim),
            all.len() <= xml@.len(),
            events@.len() <= all.len(),
            events@ == all.take(events@.len() as int),
            pending(reader) == all.skip(events@.len() as int),
            no_fault(events@),
            ended ==> events@.len() == all.len(),
        decreases all.len() - events@.len() + if ended {
                0int
            } else {
                1int
            },
    {
        let ghost before = events@;
        match next_event(&mut reader) {
            XmlEvent::Eof => {
                ended = true;
            },
            XmlEvent::Malformed(at) => {
                proof {
                    lemma_first_fault(all, before.len() as int);
                }
                return Err(at);
            },
            event => {
                events.push(event);
                assert(events@ == all.take(events@.len() as int));
                assert(all.skip(before.len() as int).skip(1) == all.skip(events@.len() as int));
            },
        }
    }
    proof {
        lemma_first_fault(all, all.len() as int);
        assert(all.take(all.len() as int) == all);
    }
    Ok(events)
}

} // verus!
