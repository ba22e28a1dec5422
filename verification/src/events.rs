//! The structural events the assemblers consume.
//!
//! An event is a plain value: a start tag with its name and optional
//! language attribute, an end tag, or a run of raw (still escaped) text.
//! Each carries the stream byte offset just past the markup it came
//! from, used verbatim in diagnostics.

use vstd::prelude::*;

verus! {

/// One structural event of the document, as a plain value.
#[derive(Debug, PartialEq)]
pub enum XmlEvent {
    /// `<name ...>`; `lang` is the raw value of an `xml:lang` attribute
    /// when one is present.
    Start { name: String, lang: Option<String>, pos: usize },
    /// `</name>`.
    End { name: String, pos: usize },
    /// Raw character data, exactly as written in the document (escape
    /// sequences unresolved).
    Text { raw: String, pos: usize },
}

/// Mathematical image of an [`XmlEvent`].
pub ghost enum EventV {
    Start { name: Seq<char>, lang: Option<Seq<char>>, pos: nat },
    End { name: Seq<char>, pos: nat },
    Text { raw: Seq<char>, pos: nat },
}

impl View for XmlEvent {
    type V = EventV;

    open spec fn view(&self) -> EventV {
        match self {
            XmlEvent::Start { name, lang, pos } => EventV::Start {
                name: name@,
                lang: crate::error::view_opt_string(*lang),
                pos: *pos as nat,
            },
            XmlEvent::End { name, pos } => EventV::End { name: name@, pos: *pos as nat },
            XmlEvent::Text { raw, pos } => EventV::Text { raw: raw@, pos: *pos as nat },
        }
    }
}

/// The images of a list of events.
pub open spec fn view_events(s: Seq<XmlEvent>) -> Seq<EventV> {
    s.map(|i: int, e: XmlEvent| e@)
}

/// Appending an event appends its image.
pub proof fn lemma_view_events_push(s: Seq<XmlEvent>, e: XmlEvent)
    ensures
        view_events(s.push(e)) == view_events(s).push(e@),
{
    assert(view_events(s.push(e)) =~= view_events(s).push(e@));
}

/// No text event in the stream is made of whitespace alone: the event
/// source suppresses pure-whitespace text nodes.
pub open spec fn no_blank_text(evs: Seq<EventV>) -> bool {
    forall|j: int|
        0 <= j < evs.len() ==> ((#[trigger] evs[j]) matches EventV::Text { raw, pos }
            ==> !crate::text::all_space(raw))
}

/// The byte offset an event carries.
pub open spec fn pos_of(ev: EventV) -> nat {
    match ev {
        EventV::Start { pos, .. } => pos,
        EventV::End { pos, .. } => pos,
        EventV::Text { pos, .. } => pos,
    }
}

/// The offset reported when the stream ends unexpectedly: that of the
/// last event, or zero for an empty stream.
pub open spec fn end_pos(evs: Seq<EventV>) -> nat {
    if evs.len() > 0 {
        pos_of(evs[evs.len() - 1])
    } else {
        0
    }
}

/// The error for a stream that ends inside an unclosed element.
pub open spec fn truncated_err(evs: Seq<EventV>) -> crate::error::ErrorV {
    crate::error::ErrorV {
        kind: crate::error::ErrorKind::Truncated,
        pos: end_pos(evs),
        text: None,
    }
}

/// The byte offset an event carries.
pub fn event_pos(ev: &XmlEvent) -> (r: usize)
    ensures
        r as nat == pos_of(ev@),
{
    match ev {
        XmlEvent::Start { pos, .. } => *pos,
        XmlEvent::End { pos, .. } => *pos,
        XmlEvent::Text { pos, .. } => *pos,
    }
}

/// The offset reported when the stream ends unexpectedly.
pub fn stream_end_pos(events: &Vec<XmlEvent>) -> (r: usize)
    ensures
        r as nat == end_pos(view_events(events@)),
{
    let n = events.len();
    if n > 0 {
        assert(view_events(events@)[n - 1] == events@[n - 1]@);
        event_pos(&events[n - 1])
    } else {
        0
    }
}

} // verus!
