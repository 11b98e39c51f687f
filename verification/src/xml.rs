//! XML events as plain values, read with quick-xml, and the attribute and
//! name helpers the EPUB package readers share.

use vstd::prelude::*;

use vstd::utf8::encode_utf8;

use crate::text::{after_last, after_last_exec, lossy_decoded, str_eq, utf8_lossy};

verus! {

#[verifier::external_type_specification]
#[verifier::external_body]
#[verifier::reject_recursive_types(R)]
pub struct ExXmlReader<R>(quick_xml::Reader<R>);

/// One attribute of a tag: raw key and raw value bytes.
#[derive(Debug, Clone)]
pub struct XmlAttribute {
    pub key: Vec<u8>,
    pub value: Vec<u8>,
}

/// A start or empty-element tag: its raw qualified name and its attributes
/// in document order.
#[derive(Debug, Clone)]
pub struct XmlTag {
    pub name: Vec<u8>,
    pub attributes: Vec<XmlAttribute>,
}

/// One event of an XML document.
#[derive(Debug, Clone)]
pub enum XmlEvent {
    Start(XmlTag),
    Empty(XmlTag),
    End(Vec<u8>),
    /// Character data, with entity references resolved.
    Text(String),
    /// Comments, CDATA, declarations, processing instructions, doctypes.
    Other,
    Eof,
    /// A syntax error, with its message.
    Error(String),
}

impl XmlEvent {
    pub open spec fn is_terminal(self) -> bool {
        self is Eof || self is Error
    }
}

/// An event as plain values: names and attribute keys and values as raw
/// bytes, text and error messages as characters.
pub enum XmlEventView {
    Start(Seq<u8>, Seq<(Seq<u8>, Seq<u8>)>),
    Empty(Seq<u8>, Seq<(Seq<u8>, Seq<u8>)>),
    End(Seq<u8>),
    Text(Seq<char>),
    Other,
    Eof,
    Error(Seq<char>),
}

impl XmlEventView {
    pub open spec fn is_terminal(self) -> bool {
        self is Eof || self is Error
    }
}

/// Attributes as `(key, value)` byte sequences.
pub open spec fn attr_views(attrs: Seq<XmlAttribute>) -> Seq<(Seq<u8>, Seq<u8>)> {
    attrs.map_values(|a: XmlAttribute| (a.key@, a.value@))
}

/// An event as plain values.
pub open spec fn ev_view(ev: XmlEvent) -> XmlEventView {
    match ev {
        XmlEvent::Start(t) => XmlEventView::Start(t.name@, attr_views(t.attributes@)),
        XmlEvent::Empty(t) => XmlEventView::Empty(t.name@, attr_views(t.attributes@)),
        XmlEvent::End(n) => XmlEventView::End(n@),
        XmlEvent::Text(s) => XmlEventView::Text(s@),
        XmlEvent::Other => XmlEventView::Other,
        XmlEvent::Eof => XmlEventView::Eof,
        XmlEvent::Error(m) => XmlEventView::Error(m@),
    }
}

/// Events as plain values.
pub open spec fn evs_view(evs: Seq<XmlEvent>) -> Seq<XmlEventView> {
    evs.map_values(|e: XmlEvent| ev_view(e))
}

/// The kinds of event quick-xml reports.
pub enum XmlKind {
    Start,
    Empty,
    End,
    Text,
    Other,
    Eof,
    Error,
}

/// The kind of the event that `quick_xml::Reader::read_event_into` gives
/// at its call number `k` (counting from 0) on a reader made by
/// `Reader::from_str(text)` with text trimming on.
pub uninterp spec fn xml_kind_at(text: Seq<char>, k: nat) -> XmlKind;

/// The raw name (`BytesStart::name`) of the start or empty tag read at call `k`.
pub uninterp spec fn xml_start_name_at(text: Seq<char>, k: nat) -> Seq<u8>;

/// The well-formed attributes (`BytesStart::attributes`, malformed ones
/// skipped) of the start or empty tag read at call `k`, as key and value bytes.
pub uninterp spec fn xml_start_attributes_at(text: Seq<char>, k: nat) -> Seq<(Seq<u8>, Seq<u8>)>;

/// The raw name (`BytesEnd::name`) of the end tag read at call `k`.
pub uninterp spec fn xml_end_name_at(text: Seq<char>, k: nat) -> Seq<u8>;

/// The text (`BytesText::unescape`, or empty where that fails) read at call `k`.
pub uninterp spec fn xml_text_at(text: Seq<char>, k: nat) -> Seq<char>;

/// The message (`Display` of `quick_xml::Error`) of the error read at call `k`.
pub uninterp spec fn xml_error_at(text: Seq<char>, k: nat) -> Seq<char>;

/// The event read from `text` at call `k`, as plain values.
pub open spec fn xml_event_at(text: Seq<char>, k: nat) -> XmlEventView {
    match xml_kind_at(text, k) {
        XmlKind::Start => XmlEventView::Start(xml_start_name_at(text, k), xml_start_attributes_at(text, k)),
        XmlKind::Empty => XmlEventView::Empty(xml_start_name_at(text, k), xml_start_attributes_at(text, k)),
        XmlKind::End => XmlEventView::End(xml_end_name_at(text, k)),
        XmlKind::Text => XmlEventView::Text(xml_text_at(text, k)),
        XmlKind::Other => XmlEventView::Other,
        XmlKind::Eof => XmlEventView::Eof,
        XmlKind::Error => XmlEventView::Error(xml_error_at(text, k)),
    }
}

/// The events of `text` from call `k` on, up to and including the first
/// end-of-document or error event, and at most `left + 1` of them.
pub open spec fn xml_events_from(text: Seq<char>, k: nat, left: nat) -> Seq<XmlEventView>
    decreases left,
{
    let ev = xml_event_at(text, k);
    if ev.is_terminal() || left == 0 {
        seq![ev]
    } else {
        seq![ev] + xml_events_from(text, k + 1, (left - 1) as nat)
    }
}

/// The events `xml_events` reads from `text`: up to and including the first
/// end-of-document or error event, and at most one more than `text` has
/// bytes.
pub open spec fn xml_events_of(text: Seq<char>) -> Seq<XmlEventView> {
    xml_events_from(text, 0, (encode_utf8(text).len() as usize) as nat)
}

/// A quick-xml reader over a text, with the text and the number of events
/// read so far.
pub struct XmlCursor<'a> {
    reader: quick_xml::Reader<&'a [u8]>,
    text: Ghost<Seq<char>>,
    read: Ghost<nat>,
}

impl<'a> XmlCursor<'a> {
    pub closed spec fn text(&self) -> Seq<char> {
        self.text@
    }

    pub closed spec fn read_count(&self) -> nat {
        self.read@
    }
}

/// Calls `quick_xml::Reader::from_str` and turns on text trimming through
/// `config_mut().trim_text(true)`: a cursor over `text` that has read no
/// event yet.
#[verifier::external_body]
fn open_xml_reader<'a>(text: &'a str) -> (c: XmlCursor<'a>)
    ensures
        c.text() == text@,
        c.read_count() == 0,
{
    let mut reader = quick_xml::Reader::from_str(text);
    reader.config_mut().trim_text(true);
    XmlCursor { reader, text: Ghost(text@), read: Ghost(0) }
}

fn open_cursor<'a>(text: &'a str) -> (c: XmlCursor<'a>)
    ensures
        c.text() == text@,
        c.read_count() == 0,
{
    open_xml_reader(text)
}

#[verifier::external_type_specification]
#[verifier::external_body]
pub struct ExBytesStart<'a>(quick_xml::events::BytesStart<'a>);

#[verifier::external_type_specification]
#[verifier::external_body]
pub struct ExBytesEnd<'a>(quick_xml::events::BytesEnd<'a>);

#[verifier::external_type_specification]
#[verifier::external_body]
pub struct ExBytesText<'a>(quick_xml::events::BytesText<'a>);

#[verifier::external_type_specification]
#[verifier::external_body]
pub struct ExXmlError(quick_xml::Error);

/// A start or empty tag as quick-xml reports it, with the text and call
/// number it was read at.
pub struct StartRef {
    raw: quick_xml::events::BytesStart<'static>,
    at: Ghost<(Seq<char>, nat)>,
}

/// An end tag as quick-xml reports it, with where it was read.
pub struct EndRef {
    raw: quick_xml::events::BytesEnd<'static>,
    at: Ghost<(Seq<char>, nat)>,
}

/// Character data as quick-xml reports it, with where it was read.
pub struct TextRef {
    raw: quick_xml::events::BytesText<'static>,
    at: Ghost<(Seq<char>, nat)>,
}

/// A quick-xml error, with where it was read.
pub struct ErrorRef {
    raw: quick_xml::Error,
    at: Ghost<(Seq<char>, nat)>,
}

impl StartRef {
    pub closed spec fn at(&self) -> (Seq<char>, nat) {
        self.at@
    }
}

impl EndRef {
    pub closed spec fn at(&self) -> (Seq<char>, nat) {
        self.at@
    }
}

impl TextRef {
    pub closed spec fn at(&self) -> (Seq<char>, nat) {
        self.at@
    }
}

impl ErrorRef {
    pub closed spec fn at(&self) -> (Seq<char>, nat) {
        self.at@
    }
}

/// An event as quick-xml reports it, owned.
pub enum RawXmlEvent {
    Start(StartRef),
    Empty(StartRef),
    End(EndRef),
    Text(TextRef),
    Other,
    Eof,
    Error(ErrorRef),
}

/// Calls `quick_xml::Reader::read_event_into` and takes the event over as
/// owned (`Event::into_owned`): the next event of the cursor's text, of the
/// kind the text gives at that call, its parts marked with where they were
/// read; the cursor counts one more call.
#[verifier::external_body]
fn read_raw_event(c: &mut XmlCursor) -> (r: RawXmlEvent)
    ensures
        final(c).text() == old(c).text(),
        final(c).read_count() == old(c).read_count() + 1,
        ({
            let (t, k) = (old(c).text(), old(c).read_count());
            match xml_kind_at(t, k) {
                XmlKind::Start => r matches RawXmlEvent::Start(e) && e.at() == (t, k),
                XmlKind::Empty => r matches RawXmlEvent::Empty(e) && e.at() == (t, k),
                XmlKind::End => r matches RawXmlEvent::End(e) && e.at() == (t, k),
                XmlKind::Text => r matches RawXmlEvent::Text(e) && e.at() == (t, k),
                XmlKind::Other => r is Other,
                XmlKind::Eof => r is Eof,
                XmlKind::Error => r matches RawXmlEvent::Error(e) && e.at() == (t, k),
            }
        }),
{
    let at = Ghost((c.text@, c.read@));
    let mut buf = Vec::new();
    match c.reader.read_event_into(&mut buf).map(|e| e.into_owned()) {
        Ok(quick_xml::events::Event::Start(raw)) => RawXmlEvent::Start(StartRef { raw, at }),
        Ok(quick_xml::events::Event::Empty(raw)) => RawXmlEvent::Empty(StartRef { raw, at }),
        Ok(quick_xml::events::Event::End(raw)) => RawXmlEvent::End(EndRef { raw, at }),
        Ok(quick_xml::events::Event::Text(raw)) => RawXmlEvent::Text(TextRef { raw, at }),
        Ok(quick_xml::events::Event::Eof) => RawXmlEvent::Eof,
        Ok(_) => RawXmlEvent::Other,
        Err(raw) => RawXmlEvent::Error(ErrorRef { raw, at }),
    }
}

/// The raw qualified name of a tag (`BytesStart::name`).
#[verifier::external_body]
fn start_name(e: &StartRef) -> (r: Vec<u8>)
    ensures
        r@ == xml_start_name_at(e.at().0, e.at().1),
{
    e.raw.name().as_ref().to_vec()
}

/// The attributes of a tag (`BytesStart::attributes`), in document order,
/// skipping malformed ones as `Iterator::flatten` does.
#[verifier::external_body]
fn start_attributes(e: &StartRef) -> (r: Vec<XmlAttribute>)
    ensures
        attr_views(r@) == xml_start_attributes_at(e.at().0, e.at().1),
{
    e.raw.attributes().flatten().map(|a| XmlAttribute { key: a.key.as_ref().to_vec(), value: a.value.to_vec() }).collect()
}

/// The raw qualified name of an end tag (`BytesEnd::name`).
#[verifier::external_body]
fn end_name(e: &EndRef) -> (r: Vec<u8>)
    ensures
        r@ == xml_end_name_at(e.at().0, e.at().1),
{
    e.raw.name().as_ref().to_vec()
}

/// Character data with entity references resolved (`BytesText::unescape`),
/// or the empty string when that fails.
#[verifier::external_body]
fn text_unescaped(t: &TextRef) -> (r: String)
    ensures
        r@ == xml_text_at(t.at().0, t.at().1),
{
    t.raw.unescape().map(|c| c.into_owned()).unwrap_or_default()
}

/// The message of a quick-xml error, through its `Display` impl.
#[verifier::external_body]
fn xml_error_message(e: &ErrorRef) -> (r: String)
    ensures
        r@ == xml_error_at(e.at().0, e.at().1),
{
    e.raw.to_string()
}

fn read_xml_event(c: &mut XmlCursor) -> (ev: XmlEvent)
    ensures
        final(c).text() == old(c).text(),
        final(c).read_count() == old(c).read_count() + 1,
        ev_view(ev) == xml_event_at(old(c).text(), old(c).read_count()),
{
    match read_raw_event(c) {
        RawXmlEvent::Start(e) => XmlEvent::Start(XmlTag { name: start_name(&e), attributes: start_attributes(&e) }),
        RawXmlEvent::Empty(e) => XmlEvent::Empty(XmlTag { name: start_name(&e), attributes: start_attributes(&e) }),
        RawXmlEvent::End(e) => XmlEvent::End(end_name(&e)),
        RawXmlEvent::Text(t) => XmlEvent::Text(text_unescaped(&t)),
        RawXmlEvent::Other => XmlEvent::Other,
        RawXmlEvent::Eof => XmlEvent::Eof,
        RawXmlEvent::Error(e) => XmlEvent::Error(xml_error_message(&e)),
    }
}

/// The events of `text`, read up to and including the first end-of-document
/// or error event. Reading also stops after one event more than `text` has
/// bytes, since every event but the last consumes at least one byte.
pub fn xml_events(text: &str) -> (r: Vec<XmlEvent>)
    ensures
        evs_view(r@) == xml_events_of(text@),
        1 <= r.len() <= text.len() + 1,
        forall|i: int| 0 <= i < r.len() - 1 ==> !(#[trigger] r@[i]).is_terminal(),
        r@.last().is_terminal() || r.len() == text.len() + 1,
{
    let mut c = open_cursor(text);
    let mut events: Vec<XmlEvent> = Vec::new();
    let bound = text.len();
    let ghost t = text@;
    assert(evs_view(events@) + xml_events_of(t) =~= xml_events_of(t));
    assert(evs_view(events@) + xml_events_from(t, 0, bound as nat) =~= xml_events_of(t));
    loop
        invariant_except_break
            events.len() <= bound,
            forall|i: int| 0 <= i < events.len() ==> !(#[trigger] events@[i]).is_terminal(),
            evs_view(events@) + xml_events_from(t, events.len() as nat, (bound - events.len()) as nat)
                == xml_events_of(t),
        invariant
            bound == text.len(),
            bound == (encode_utf8(t).len() as usize),
            c.text() == t,
            c.read_count() == events.len(),
        ensures
            1 <= events.len() <= bound + 1,
            forall|i: int| 0 <= i < events.len() - 1 ==> !(#[trigger] events@[i]).is_terminal(),
            events@.last().is_terminal() || events.len() == bound + 1,
            evs_view(events@) == xml_events_of(t),
        decreases bound - events.len(),
    {
        let ghost k = events.len() as nat;
        let ghost before = evs_view(events@);
        let ghost left = (bound - events.len()) as nat;
        let ev = read_xml_event(&mut c);
        let stop = match ev {
            XmlEvent::Eof => true,
            XmlEvent::Error(_) => true,
            _ => false,
        };
        events.push(ev);
        assert(evs_view(events@) =~= before.push(ev_view(ev)));
        assert(ev_view(ev).is_terminal() == stop);
        if stop || events.len() > bound {
            assert(xml_events_from(t, k, left) == seq![ev_view(ev)]);
            assert(before.push(ev_view(ev)) =~= before + seq![ev_view(ev)]);
            break;
        }
        assert(xml_events_from(t, k, left) == seq![ev_view(ev)] + xml_events_from(t, k + 1, (left - 1) as nat));
        assert(before + (seq![ev_view(ev)] + xml_events_from(t, k + 1, (left - 1) as nat)) =~= before.push(
            ev_view(ev),
        ) + xml_events_from(t, k + 1, (left - 1) as nat));
    }
    events
}

/// The local part of a raw qualified name: its text after the last `:`.
pub open spec fn local_name_of(raw: Seq<u8>) -> Seq<char> {
    after_last(lossy_decoded(raw), ':')
}

/// Strips a qualified name down to its local part (drops any prefix).
pub fn local_name(raw: &[u8]) -> (r: String)
    ensures
        r@ == local_name_of(raw@),
{
    let s = utf8_lossy(raw);
    after_last_exec(s.as_str(), ':')
}

/// The value of the first attribute whose local name is `key`.
pub open spec fn attr_value(attrs: Seq<(Seq<u8>, Seq<u8>)>, key: Seq<char>) -> Option<Seq<char>>
    decreases attrs.len(),
{
    if attrs.len() == 0 {
        None
    } else if local_name_of(attrs[0].0) == key {
        Some(lossy_decoded(attrs[0].1))
    } else {
        attr_value(attrs.drop_first(), key)
    }
}

pub open spec fn opt_view(o: Option<String>) -> Option<Seq<char>> {
    match o {
        Some(s) => Some(s@),
        None => None,
    }
}

/// Reads a named attribute off a tag, returning its value as text.
pub fn attr(tag: &XmlTag, key: &str) -> (r: Option<String>)
    ensures
        opt_view(r) == attr_value(attr_views(tag.attributes@), key@),
{
    let mut i: usize = 0;
    let ghost av = attr_views(tag.attributes@);
    assert(av.skip(0) =~= av);
    while i < tag.attributes.len()
        invariant
            i <= tag.attributes.len(),
            av == attr_views(tag.attributes@),
            attr_value(av.skip(i as int), key@) == attr_value(av, key@),
        decreases tag.attributes.len() - i,
    {
        let ghost rest = av.skip(i as int);
        assert(rest[0] == (tag.attributes@[i as int].key@, tag.attributes@[i as int].value@));
        let name = local_name(tag.attributes[i].key.as_slice());
        if str_eq(name.as_str(), key) {
            return Some(utf8_lossy(tag.attributes[i].value.as_slice()));
        }
        assert(rest.drop_first() =~= av.skip(i + 1));
        i = i + 1;
    }
    None
}

} // verus!
