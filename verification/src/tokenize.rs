//! The event source: turns one markup document into the plain event
//! values the assemblers consume.
//!
//! The low-level work is done by the `quick_xml` reader, reached
//! through the trusted items below.  The verified loop around it
//! reassembles each text run from the reader's text and reference
//! fragments (so that downstream sees the raw text exactly as written,
//! escapes included), suppresses pure-whitespace text nodes, and
//! desugars self-closing tags into an immediate start/end pair.

use vstd::prelude::*;

use crate::error::{ErrorKind, ParseError};
use crate::events::{lemma_view_events_push, no_blank_text, view_events, XmlEvent};
use crate::text::all_space_str;
use vstd::string::StringExecFns;

verus! {

#[verifier::external_type_specification]
#[verifier::external_body]
#[verifier::reject_recursive_types(R)]
pub struct ExReader<R>(quick_xml::reader::Reader<R>);

#[verifier::external_type_specification]
#[verifier::external_body]
pub struct ExBytesStart<'a>(quick_xml::events::BytesStart<'a>);

#[verifier::external_type_specification]
#[verifier::external_body]
pub struct ExBytesEnd<'a>(quick_xml::events::BytesEnd<'a>);

#[verifier::external_type_specification]
#[verifier::external_body]
pub struct ExBytesText<'a>(quick_xml::events::BytesText<'a>);

#[verifier::external_type_specification]
#[verifier::external_body]
pub struct ExBytesRef<'a>(quick_xml::events::BytesRef<'a>);

/// One event as the reader hands it out, one variant per kind the
/// tokenizer distinguishes.
pub enum RawEvent<'a> {
    /// A start tag.
    RStart(quick_xml::events::BytesStart<'a>),
    /// An end tag.
    REnd(quick_xml::events::BytesEnd<'a>),
    /// A fragment of character data, escape sequences unresolved.
    RText(quick_xml::events::BytesText<'a>),
    /// A `&name;` reference, split out of the surrounding text.
    RRef(quick_xml::events::BytesRef<'a>),
    /// A self-closing tag the reader did not expand.
    REmpty(quick_xml::events::BytesStart<'a>),
    /// The end of the document.
    REof,
    /// An event kind the dictionary schema ignores (comment,
    /// declaration, processing instruction, CDATA, doctype).
    ROther,
    /// Malformed markup, with the reader's message.
    RFail(String),
}

/// Relies on quick_xml::reader::Reader::from_str: a reader over the
/// input, configured to expand self-closing tags into start/end pairs
/// and not to enforce end-tag name matching.
#[verifier::external_body]
fn make_reader<'a>(input: &'a str) -> quick_xml::reader::Reader<&'a [u8]> {
    let mut r = quick_xml::reader::Reader::from_str(input);
    r.config_mut().expand_empty_elements = true;
    r.config_mut().check_end_names = false;
    r
}

/// Relies on quick_xml::reader::Reader::read_event: the next
/// structural event of the document, handed back one variant per kind.
#[verifier::external_body]
fn read_raw<'a>(r: &mut quick_xml::reader::Reader<&'a [u8]>) -> RawEvent<'a> {
    match r.read_event() {
        Ok(quick_xml::events::Event::Start(e)) => RawEvent::RStart(e),
        Ok(quick_xml::events::Event::End(e)) => RawEvent::REnd(e),
        Ok(quick_xml::events::Event::Text(t)) => RawEvent::RText(t),
        Ok(quick_xml::events::Event::GeneralRef(t)) => RawEvent::RRef(t),
        Ok(quick_xml::events::Event::Empty(e)) => RawEvent::REmpty(e),
        Ok(quick_xml::events::Event::Eof) => RawEvent::REof,
        Ok(_) => RawEvent::ROther,
        Err(e) => RawEvent::RFail(e.to_string()),
    }
}

/// Relies on quick_xml::reader::Reader::buffer_position: the byte
/// offset just past the markup last read.
#[verifier::external_body]
fn buffer_pos<'a>(r: &quick_xml::reader::Reader<&'a [u8]>) -> usize {
    r.buffer_position() as usize
}

/// Relies on quick_xml::events::BytesStart::name: the tag's name.
#[verifier::external_body]
fn start_name(e: &quick_xml::events::BytesStart<'_>) -> String {
    e.name().0.to_owned()
}

/// Relies on quick_xml::events::BytesStart::try_get_attribute: the raw
/// value of the tag's `xml:lang` attribute, when one is present;
/// attribute errors are skipped.
#[verifier::external_body]
fn start_lang(e: &quick_xml::events::BytesStart<'_>) -> Option<String> {
    match e.try_get_attribute("xml:lang") {
        Ok(Some(a)) => Some(a.value.into_owned()),
        _ => None,
    }
}

/// Relies on quick_xml::events::BytesEnd::name: the tag's name.
#[verifier::external_body]
fn end_name(e: &quick_xml::events::BytesEnd<'_>) -> String {
    e.name().0.to_owned()
}

/// Relies on the Deref of quick_xml::events::BytesText: the fragment's
/// raw text, exactly as written in the document.
#[verifier::external_body]
fn text_raw(t: &quick_xml::events::BytesText<'_>) -> String {
    (&**t).to_owned()
}

/// Relies on the Deref of quick_xml::events::BytesRef: the name
/// between the `&` and the `;` of the reference.
#[verifier::external_body]
fn ref_name(t: &quick_xml::events::BytesRef<'_>) -> String {
    (&**t).to_owned()
}

/// Closes the text run under assembly, if any: a run of whitespace
/// alone is suppressed, any other run becomes one text event.
fn flush_pending(
    events: &mut Vec<XmlEvent>,
    pending: &mut String,
    has_pending: &mut bool,
    pending_pos: usize,
)
    requires
        no_blank_text(view_events(old(events)@)),
    ensures
        no_blank_text(view_events(final(events)@)),
        !*final(has_pending),
{
    if *has_pending {
        if !all_space_str(pending.as_str()) {
            let raw = pending.clone();
            *pending = String::new();
            let ev = XmlEvent::Text { raw, pos: pending_pos };
            proof {
                lemma_view_events_push(events@, ev);
            }
            events.push(ev);
        } else {
            *pending = String::new();
        }
        *has_pending = false;
    }
}

/// Appends a non-text event, keeping the stream's text-node property.
fn push_markup(events: &mut Vec<XmlEvent>, ev: XmlEvent)
    requires
        no_blank_text(view_events(old(events)@)),
        !(ev matches XmlEvent::Text { .. }),
    ensures
        no_blank_text(view_events(final(events)@)),
{
    proof {
        lemma_view_events_push(events@, ev);
    }
    events.push(ev);
}

/// Turns one markup document into its event stream: start and end
/// tags and raw text runs, in document order, with pure-whitespace
/// text nodes suppressed and self-closing tags desugared into an
/// immediate start/end pair.  Malformed markup is a hard error
/// carrying the reader's byte offset and message.
pub fn tokenize(input: &str) -> (res: Result<Vec<XmlEvent>, ParseError>)
    ensures
        match res {
            Ok(events) => no_blank_text(view_events(events@)),
            Err(e) => e@.kind == ErrorKind::Xml,
        },
{
    let mut reader = make_reader(input);
    let mut events: Vec<XmlEvent> = Vec::new();
    let mut pending: String = String::new();
    let mut has_pending: bool = false;
    let mut pending_pos: usize = 0;
    // One reader event per iteration; a document can never come close
    // to this many events, so exhausting the bound means the reader
    // stopped making progress, reported as malformed markup below.
    let mut fuel: usize = usize::MAX;
    while fuel > 0
        invariant
            no_blank_text(view_events(events@)),
        decreases fuel,
    {
        fuel -= 1;
        let step = read_raw(&mut reader);
        let pos = buffer_pos(&reader);
        match step {
            RawEvent::RText(t) => {
                let s = text_raw(&t);
                pending.append(s.as_str());
                has_pending = true;
                pending_pos = pos;
            },
            RawEvent::RRef(t) => {
                let s = ref_name(&t);
                pending.append("&");
                pending.append(s.as_str());
                pending.append(";");
                has_pending = true;
                pending_pos = pos;
            },
            RawEvent::RStart(e) => {
                flush_pending(&mut events, &mut pending, &mut has_pending, pending_pos);
                let name = start_name(&e);
                let lang = start_lang(&e);
                push_markup(&mut events, XmlEvent::Start { name, lang, pos });
            },
            RawEvent::REmpty(e) => {
                flush_pending(&mut events, &mut pending, &mut has_pending, pending_pos);
                let name = start_name(&e);
                let lang = start_lang(&e);
                push_markup(&mut events, XmlEvent::Start { name: name.clone(), lang, pos });
                push_markup(&mut events, XmlEvent::End { name, pos });
            },
            RawEvent::REnd(e) => {
                flush_pending(&mut events, &mut pending, &mut has_pending, pending_pos);
                let name = end_name(&e);
                push_markup(&mut events, XmlEvent::End { name, pos });
            },
            RawEvent::ROther => {
                flush_pending(&mut events, &mut pending, &mut has_pending, pending_pos);
            },
            RawEvent::REof => {
                flush_pending(&mut events, &mut pending, &mut has_pending, pending_pos);
                return Ok(events);
            },
            RawEvent::RFail(msg) => {
                return Err(ParseError { kind: ErrorKind::Xml, pos, text: Some(msg) });
            },
        }
    }
    let p = buffer_pos(&reader);
    Err(ParseError { kind: ErrorKind::Xml, pos: p, text: None })
}

} // verus!
