//! The XML event layer over a decompressed block: the outside reader is
//! driven one event at a time, and every event is converted to plain values
//! before the verified scan sees it. The full event sequence of a document
//! is a function of its bytes alone, and carries the name [`xml_events_of`]
//! that the stage boundaries' contracts speak of; the scans themselves are
//! verified for every event sequence.
use quick_xml::events::Event;
use vstd::prelude::*;

verus! {

/// One event of an XML document, reduced to plain values.
pub enum XmlEvent {
    /// An opening tag, by name.
    Start(String),
    /// Character data, unescaped.
    Text(String),
    /// A closing tag, by name.
    End(String),
    /// The end of the document.
    Eof,
    /// The reader rejected the input.
    Malformed,
    /// Any other kind of event.
    Other,
}

/// The mathematical value of an [`XmlEvent`].
pub enum EventV {
    Start(Seq<char>),
    Text(Seq<char>),
    End(Seq<char>),
    Eof,
    Malformed,
    Other,
}

impl View for XmlEvent {
    type V = EventV;

    open spec fn view(&self) -> EventV {
        match self {
            XmlEvent::Start(s) => EventV::Start(s@),
            XmlEvent::Text(s) => EventV::Text(s@),
            XmlEvent::End(s) => EventV::End(s@),
            XmlEvent::Eof => EventV::Eof,
            XmlEvent::Malformed => EventV::Malformed,
            XmlEvent::Other => EventV::Other,
        }
    }
}

/// The views of a sequence of events.
pub open spec fn events_view(s: Seq<XmlEvent>) -> Seq<EventV> {
    s.map_values(|e: XmlEvent| e@)
}

#[verifier::external_type_specification]
#[verifier::external_body]
#[verifier::reject_recursive_types(R)]
pub struct ExReader<R>(quick_xml::reader::Reader<R>);

/// Relies on quick_xml's `Reader::from_reader` and `Config::trim_text`:
/// builds a reader over the bytes, with surrounding whitespace trimmed off
/// text events.
#[verifier::external_body]
pub fn xml_reader(bytes: &[u8]) -> (r: quick_xml::reader::Reader<&[u8]>) {
    let mut reader = quick_xml::reader::Reader::from_reader(bytes);
    reader.config_mut().trim_text(true);
    reader
}

/// Relies on quick_xml's `Reader::read_event_into`: hands back the next
/// event of the document, converted to plain values (tag names as text,
/// character data unescaped). The reader advances; nothing is promised of
/// which event comes.
#[verifier::external_body]
pub fn next_xml_event(r: &mut quick_xml::reader::Reader<&[u8]>) -> (e: XmlEvent) {
    let mut buf = Vec::new();
    match r.read_event_into(&mut buf) {
        Ok(Event::Start(s)) => XmlEvent::Start(String::from_utf8_lossy(s.name().0).into_owned()),
        Ok(Event::Text(t)) => match t.unescape() {
            Ok(c) => XmlEvent::Text(c.into_owned()),
            Err(_) => XmlEvent::Malformed,
        },
        Ok(Event::End(s)) => XmlEvent::End(String::from_utf8_lossy(s.name().0).into_owned()),
        Ok(Event::Eof) => XmlEvent::Eof,
        Ok(_) => XmlEvent::Other,
        Err(_) => XmlEvent::Malformed,
    }
}

/// What reading a document's events yields: the full event sequence of the
/// bytes, up to and including the end-of-document event or the first event
/// the reader rejects. The sequence is a function of the bytes alone.
pub uninterp spec fn xml_events_of(bytes: Seq<u8>) -> Seq<EventV>;

/// Collect the events of a document, up to and including its end or the
/// first event the reader rejects.
///
/// Relies on quick_xml's `Reader`: the events of a document are a function
/// of its bytes alone, and the reader terminates on a finite slice (every
/// event it accepts spans at least one byte, and the collection stops at
/// the end of the document or at the first rejected event).
#[verifier::external_body]
pub fn read_all_events(bytes: &[u8]) -> (r: Vec<XmlEvent>)
    ensures
        events_view(r@) == xml_events_of(bytes@),
{
    let mut reader = xml_reader(bytes);
    let mut out: Vec<XmlEvent> = Vec::new();
    loop {
        let e = next_xml_event(&mut reader);
        let done = matches!(e, XmlEvent::Eof | XmlEvent::Malformed);
        out.push(e);
        if done {
            return out;
        }
    }
}

} // verus!
