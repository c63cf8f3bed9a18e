//! XML as a list of events, and its bytes.
use vstd::prelude::*;
use crate::json::{nat_digits, int_text, write_nat, write_int};
use quick_xml::events::{BytesEnd, BytesStart, BytesText, Event};

verus! {

/// One attribute: name and (unescaped) value.
#[derive(Debug)]
pub struct XmlAttr {
    pub name: String,
    pub value: String,
}

/// One XML event: a start tag, an empty-element tag, an end tag, or (unescaped) text.
#[derive(Debug)]
pub enum XmlEvent {
    Start(String, Vec<XmlAttr>),
    Empty(String, Vec<XmlAttr>),
    End(String),
    Text(String),
}

/// The content of an XML event.
pub enum XmlView {
    Start(Seq<char>, Seq<(Seq<char>, Seq<char>)>),
    Empty(Seq<char>, Seq<(Seq<char>, Seq<char>)>),
    End(Seq<char>),
    Text(Seq<char>),
}

/// The content of attributes.
pub open spec fn attrs_view(a: Seq<XmlAttr>) -> Seq<(Seq<char>, Seq<char>)> {
    Seq::new(a.len(), |i: int| (a[i].name@, a[i].value@))
}

impl View for XmlEvent {
    type V = XmlView;

    open spec fn view(&self) -> XmlView {
        match self {
            XmlEvent::Start(n, a) => XmlView::Start(n@, attrs_view(a@)),
            XmlEvent::Empty(n, a) => XmlView::Empty(n@, attrs_view(a@)),
            XmlEvent::End(n) => XmlView::End(n@),
            XmlEvent::Text(t) => XmlView::Text(t@),
        }
    }
}

/// The content of events.
pub open spec fn events_view(v: Seq<XmlEvent>) -> Seq<XmlView> {
    Seq::new(v.len(), |i: int| v[i]@)
}

/// A character as `quick_xml` escapes it in text and attribute values: `<`, `>`, `&`, `'`
/// and `"` become entity references; every other character stands for itself.
pub open spec fn escape_char(c: char) -> Seq<char> {
    if c == '<' {
        seq!['&', 'l', 't', ';']
    } else if c == '>' {
        seq!['&', 'g', 't', ';']
    } else if c == '&' {
        seq!['&', 'a', 'm', 'p', ';']
    } else if c == '\'' {
        seq!['&', 'a', 'p', 'o', 's', ';']
    } else if c == '"' {
        seq!['&', 'q', 'u', 'o', 't', ';']
    } else {
        seq![c]
    }
}

/// Text with every character escaped.
pub open spec fn escaped(s: Seq<char>) -> Seq<char>
    decreases s.len(),
{
    if s.len() == 0 {
        Seq::empty()
    } else {
        escaped(s.drop_last()) + escape_char(s.last())
    }
}

/// Attributes as they follow a tag's name: a space, the name, `="`, the escaped value and `"`.
pub open spec fn attrs_text(a: Seq<(Seq<char>, Seq<char>)>) -> Seq<char>
    decreases a.len(),
{
    if a.len() == 0 {
        Seq::empty()
    } else {
        attrs_text(a.drop_last()) + seq![' '] + a.last().0 + seq!['=', '"'] + escaped(a.last().1) + seq!['"']
    }
}

/// The characters of one event: `<name attrs>`, `<name attrs/>`, `</name>`, or escaped text.
pub open spec fn event_text(e: XmlView) -> Seq<char> {
    match e {
        XmlView::Start(n, a) => seq!['<'] + n + attrs_text(a) + seq!['>'],
        XmlView::Empty(n, a) => seq!['<'] + n + attrs_text(a) + seq!['/', '>'],
        XmlView::End(n) => seq!['<', '/'] + n + seq!['>'],
        XmlView::Text(t) => escaped(t),
    }
}

/// The bytes `quick_xml`'s writer (without indentation) writes for one event: the UTF-8
/// encoding of its characters.
pub open spec fn xml_event_bytes(e: XmlView) -> Seq<u8> {
    vstd::utf8::encode_utf8(event_text(e))
}

/// The bytes of events, one after another.
pub open spec fn xml_bytes(es: Seq<XmlView>) -> Seq<u8>
    decreases es.len(),
{
    if es.len() == 0 {
        Seq::empty()
    } else {
        xml_bytes(es.drop_last()) + xml_event_bytes(es.last())
    }
}

/// Writes one event with `quick_xml::Writer::write_event` (no indentation) after `buf`, and
/// tells whether it was written. The contract claims that it always is (the writer fails only
/// when the underlying sink does, and appending to a `Vec<u8>` does not fail), and that the
/// bytes appended are `xml_event_bytes`: the tag with its name and attributes, values and
/// text escaped by `quick_xml::escape::escape`, in UTF-8.
#[verifier::external_body]
fn write_xml_event(buf: &mut Vec<u8>, e: &XmlEvent) -> (written: bool)
    ensures
        written,
        final(buf)@ == old(buf)@ + xml_event_bytes(e@),
{
    let mut w = quick_xml::Writer::new(buf);
    match e {
        XmlEvent::Start(n, a) => w.write_event(Event::Start(
            BytesStart::new(n).with_attributes(a.iter().map(|x| (&*x.name, &*x.value))),
        )),
        XmlEvent::Empty(n, a) => w.write_event(Event::Empty(
            BytesStart::new(n).with_attributes(a.iter().map(|x| (&*x.name, &*x.value))),
        )),
        XmlEvent::End(n) => w.write_event(Event::End(BytesEnd::new(n))),
        XmlEvent::Text(t) => w.write_event(Event::Text(BytesText::new(t))),
    }
    .is_ok()
}

/// The bytes of events (see `xml_bytes`), or `None` when the writer refused an event (which
/// a writer into memory never does).
pub fn render_xml(events: &Vec<XmlEvent>) -> (r: Option<Vec<u8>>)
    ensures
        r is Some,
        r matches Some(b) ==> b@ == xml_bytes(events_view(events@)),
{
    let mut buf: Vec<u8> = Vec::new();
    let mut i: usize = 0;
    while i < events.len()
        invariant
            i <= events@.len(),
            buf@ == xml_bytes(events_view(events@.take(i as int))),
        decreases events.len() - i,
    {
        if !write_xml_event(&mut buf, &events[i]) {
            return None;
        }
        assert(events_view(events@.take(i + 1)).drop_last() =~= events_view(events@.take(i as int)));
        i += 1;
    }
    assert(events@.take(events@.len() as int) =~= events@);
    Some(buf)
}

/// Decimal text of a natural number.
pub fn dec_u64(n: u64) -> (s: String)
    ensures
        s@ == nat_digits(n as nat),
{
    let mut s = String::new();
    write_nat(&mut s, n);
    s
}

/// Decimal text of an integer.
pub fn dec_i64(i: i64) -> (s: String)
    ensures
        s@ == int_text(i as int),
{
    let mut s = String::new();
    write_int(&mut s, i);
    s
}

/// An attribute.
pub fn attr(name: &str, value: String) -> (a: XmlAttr)
    ensures
        a.name@ == name@,
        a.value@ == value@,
{
    XmlAttr { name: String::from_str(name), value }
}

/// Appends an event.
pub fn push_event(out: &mut Vec<XmlEvent>, e: XmlEvent)
    ensures
        events_view(final(out)@) == events_view(old(out)@).push(e@),
{
    let ghost before = out@;
    out.push(e);
    assert(events_view(out@) =~= events_view(before).push(e@));
}

} // verus!
