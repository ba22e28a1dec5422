//! The entity-literal decoder.
//!
//! Category codes are wrapped as `&name;` in the source format.  The
//! text must start with `&`, end with `;`, and contain no further `&`
//! or `;` in between; the code is the substring strictly between the
//! delimiters.

use vstd::prelude::*;

use crate::error::{ErrorKind, ErrorV, ParseError};

verus! {

/// The decoded category code of an entity literal, or `None` when the
/// text is not of the form `&name;`.
pub open spec fn entity_spec(s: Seq<char>) -> Option<Seq<char>> {
    if s.len() >= 2 && s[0] == '&' && s[s.len() - 1] == ';' && (forall|i: int|
        1 <= i < s.len() ==> s[i] != '&') && (forall|i: int| 0 <= i < s.len() - 1 ==> s[i] != ';') {
        Some(s.subrange(1, s.len() - 1))
    } else {
        None
    }
}

/// Takes a text like `&ent;` and returns `ent`; any violation of the
/// delimiter shape is a hard error carrying the stream offset and the
/// raw text.
pub fn parse_single_entity(raw: &str, pos: usize) -> (res: Result<String, ParseError>)
    ensures
        match res {
            Ok(code) => entity_spec(raw@) == Some(code@),
            Err(e) => entity_spec(raw@) is None && e@ == (ErrorV {
                kind: ErrorKind::BadEntity,
                pos: pos as nat,
                text: Some(raw@),
            }),
        },
{
    let chars = crate::text::chars_of(raw);
    let n = chars.len();
    if n < 2 || chars[0] != '&' || chars[n - 1] != ';' {
        return Err(ParseError { kind: ErrorKind::BadEntity, pos, text: Some(raw.to_owned()) });
    }
    let mut i: usize = 1;
    while i < n
        invariant
            chars@ == raw@,
            2 <= n == chars@.len(),
            1 <= i <= n,
            chars@[0] == '&',
            chars@[n - 1] == ';',
            forall|j: int| 1 <= j < i ==> chars@[j] != '&',
            forall|j: int| 0 <= j < i && j < n - 1 ==> chars@[j] != ';',
        decreases n - i,
    {
        if chars[i] == '&' || (i < n - 1 && chars[i] == ';') {
            return Err(ParseError { kind: ErrorKind::BadEntity, pos, text: Some(raw.to_owned()) });
        }
        i += 1;
    }
    let code = raw.substring_char(1, n - 1).to_owned();
    Ok(code)
}

} // verus!
