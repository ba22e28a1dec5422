//! Resolution of standard markup escape sequences in text payloads.
//!
//! What a run of raw text denotes once its `&...;` escapes are
//! resolved is computed by the markup library; the result is a pure
//! function of the characters, named here by [`xml_unescaped`].

use vstd::prelude::*;

verus! {

/// The text `s` denotes once its escape sequences are resolved, or
/// `None` when `s` holds an invalid or unknown escape.
pub uninterp spec fn xml_unescaped(s: Seq<char>) -> Option<Seq<char>>;

/// Relies on quick_xml::escape::unescape: replaces every `&...;`
/// escape with the character data it denotes, failing on an unknown
/// entity name, a bad character reference or a dangling `&`; the
/// result depends on the input characters alone.
#[verifier::external_body]
pub fn unescape_text(s: &str) -> (r: Option<String>)
    ensures
        r is Some <==> xml_unescaped(s@) is Some,
        r matches Some(t) ==> Some(t@) == xml_unescaped(s@),
{
    match quick_xml::escape::unescape(s) {
        Ok(c) => Some(c.into_owned()),
        Err(_) => None,
    }
}

} // verus!
