//! Hard errors and non-fatal warnings.
//!
//! A hard error aborts the whole document parse; it carries the stream
//! byte offset at the point of failure and, where applicable, the
//! offending raw text.  A warning is appended to a diagnostics list and
//! never affects control flow.

use vstd::prelude::*;

verus! {

/// What went fatally wrong.
#[derive(Debug, Clone, Copy, PartialEq, Eq, Structural)]
pub enum ErrorKind {
    /// The event source itself reported malformed markup.
    Xml,
    /// The event stream ended inside an unclosed element.
    Truncated,
    /// An identifier field opened while one was already open.
    NestedIdTag,
    /// An identifier field closed while none was open.
    MismatchedIdTag,
    /// The identifier text is not a base-10 unsigned integer in range.
    BadId,
    /// An entry closed with no identifier (or identifier zero).
    IdNotFound,
    /// An entry closed with no reading groups.
    NoReadings,
    /// A headword or reading text is empty.
    EmptyText,
    /// A headword or reading text has leading or trailing whitespace.
    PaddedText,
    /// An entity literal is not of the form `&name;`.
    BadEntity,
    /// A cross-reference text does not match the reference grammar.
    BadCrossRef,
    /// Two glosses of one sense carry different language annotations.
    GlossLangMismatch,
    /// A text payload holds an invalid escape sequence.
    BadEscape,
}

/// A fatal parse error: its kind, the byte offset at which it arose and,
/// where applicable, the offending raw text.
#[derive(Debug, PartialEq)]
pub struct ParseError {
    pub kind: ErrorKind,
    pub pos: usize,
    pub text: Option<String>,
}

/// Mathematical image of a [`ParseError`].
pub ghost struct ErrorV {
    pub kind: ErrorKind,
    pub pos: nat,
    pub text: Option<Seq<char>>,
}

pub open spec fn view_opt_string(o: Option<String>) -> Option<Seq<char>> {
    match o {
        Some(s) => Some(s@),
        None => None,
    }
}

impl View for ParseError {
    type V = ErrorV;

    open spec fn view(&self) -> ErrorV {
        ErrorV { kind: self.kind, pos: self.pos as nat, text: view_opt_string(self.text) }
    }
}

/// What a warning reports.
#[derive(Debug, Clone, Copy, PartialEq, Eq, Structural)]
pub enum WarnKind {
    /// A start tag that the parent element does not know.
    UnknownTag,
    /// Text encountered while no leaf field was open.
    UnexpectedText,
}

/// A non-fatal diagnostic: what was seen, where, and under which parent
/// element.
#[derive(Debug, PartialEq)]
pub struct Warning {
    pub kind: WarnKind,
    pub pos: usize,
    /// Name of the element inside which the oddity appeared.
    pub parent: String,
    /// The unrecognized tag name, or the unexpected text.
    pub detail: String,
}

/// Mathematical image of a [`Warning`].
pub ghost struct WarningV {
    pub kind: WarnKind,
    pub pos: nat,
    pub parent: Seq<char>,
    pub detail: Seq<char>,
}

impl View for Warning {
    type V = WarningV;

    open spec fn view(&self) -> WarningV {
        WarningV {
            kind: self.kind,
            pos: self.pos as nat,
            parent: self.parent@,
            detail: self.detail@,
        }
    }
}

/// The images of a list of warnings.
pub open spec fn view_warnings(s: Seq<Warning>) -> Seq<WarningV> {
    s.map(|i: int, w: Warning| w@)
}

/// Appending a warning appends its image.
pub proof fn lemma_view_warnings_push(s: Seq<Warning>, w: Warning)
    ensures
        view_warnings(s.push(w)) == view_warnings(s).push(w@),
{
    assert(view_warnings(s.push(w)) =~= view_warnings(s).push(w@));
}

} // verus!
