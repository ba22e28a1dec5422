//! The cross-reference decoder.
//!
//! A cross-reference text follows the mini-grammar
//! `TARGET ( SEP READING )? ( SEP INDEX )?` where `SEP` is the
//! separator `・`, `TARGET` and `READING` are non-empty runs of
//! characters other than the separator, and `INDEX` is a run of decimal
//! digits whose value fits the schema's small index range (at most
//! 255).  With one separator the second part is always the reading,
//! whatever its characters; the index form needs both.

use vstd::prelude::*;

use crate::error::{ErrorKind, ErrorV, ParseError};
use crate::records::{CrossRefV, CrossReference};
use crate::text::{all_digits, dec_val};

verus! {

/// The separator between the parts of a cross-reference.
pub open spec fn is_sep(c: char) -> bool {
    c == '・'
}

/// The position of the first separator at or after `from`, if any.
pub open spec fn first_sep(s: Seq<char>, from: int) -> Option<int>
    recommends
        0 <= from,
    decreases s.len() - from,
{
    if from >= s.len() {
        None
    } else if is_sep(s[from]) {
        Some(from)
    } else {
        first_sep(s, from + 1)
    }
}

/// What `first_sep` finds: the first separator position in `[from..)`.
pub proof fn lemma_first_sep(s: Seq<char>, from: int)
    requires
        0 <= from,
    ensures
        match first_sep(s, from) {
            Some(p) => from <= p < s.len() && is_sep(s[p]) && (forall|i: int|
                from <= i < p ==> !is_sep(#[trigger] s[i])),
            None => forall|i: int| from <= i < s.len() ==> !is_sep(#[trigger] s[i]),
        },
    decreases s.len() - from,
{
    if from < s.len() && !is_sep(s[from]) {
        lemma_first_sep(s, from + 1);
    }
}

/// The decoded form of a cross-reference text, or `None` when the text
/// does not match the grammar.
pub open spec fn xref_spec(s: Seq<char>) -> Option<CrossRefV> {
    let n = s.len() as int;
    match first_sep(s, 0) {
        None => if n > 0 {
            Some(CrossRefV { kanji_or_reading: s, reading: None, sense_index: None })
        } else {
            None
        },
        Some(p) => if p == 0 {
            None
        } else {
            match first_sep(s, p + 1) {
                None => if p + 1 < n {
                    Some(
                        CrossRefV {
                            kanji_or_reading: s.subrange(0, p),
                            reading: Some(s.subrange(p + 1, n)),
                            sense_index: None,
                        },
                    )
                } else {
                    None
                },
                Some(q) => if q == p + 1 || first_sep(s, q + 1) is Some {
                    None
                } else if q + 1 < n && all_digits(s, q + 1, n) && dec_val(s, q + 1, n) <= 255 {
                    Some(
                        CrossRefV {
                            kanji_or_reading: s.subrange(0, p),
                            reading: Some(s.subrange(p + 1, q)),
                            sense_index: Some(dec_val(s, q + 1, n) as u8),
                        },
                    )
                } else {
                    None
                },
            }
        },
    }
}

/// The first separator position at or after `from`, as `first_sep`
/// gives it.
fn find_sep(chars: &Vec<char>, from: usize) -> (r: Option<usize>)
    requires
        from <= chars@.len(),
    ensures
        match r {
            Some(p) => from <= p < chars@.len() && first_sep(chars@, from as int) == Some(p as int),
            None => first_sep(chars@, from as int) is None,
        },
{
    let n = chars.len();
    let mut i: usize = from;
    while i < n
        invariant
            from <= i <= n == chars@.len(),
            first_sep(chars@, from as int) == first_sep(chars@, i as int),
        decreases n - i,
    {
        if chars[i] == '・' {
            return Some(i);
        }
        i += 1;
    }
    None
}

/// Decodes one cross-reference text against the reference grammar; a
/// text that does not match is a hard error carrying the stream offset
/// and the raw text.
pub fn parse_cross_ref(input: &str, buffer_position: usize) -> (res: Result<
    CrossReference,
    ParseError,
>)
    ensures
        match res {
            Ok(x) => xref_spec(input@) == Some(x@),
            Err(e) => xref_spec(input@) is None && e@ == (ErrorV {
                kind: ErrorKind::BadCrossRef,
                pos: buffer_position as nat,
                text: Some(input@),
            }),
        },
{
    let chars = crate::text::chars_of(input);
    let n = chars.len();
    let fail = ParseError {
        kind: ErrorKind::BadCrossRef,
        pos: buffer_position,
        text: Some(input.to_owned()),
    };
    match find_sep(&chars, 0) {
        None => {
            if n > 0 {
                Ok(
                    CrossReference {
                        kanji_or_reading: input.to_owned(),
                        reading: None,
                        sense_index: None,
                    },
                )
            } else {
                Err(fail)
            }
        },
        Some(p) => {
            if p == 0 {
                return Err(fail);
            }
            match find_sep(&chars, p + 1) {
                None => {
                    if p + 1 < n {
                        Ok(
                            CrossReference {
                                kanji_or_reading: input.substring_char(0, p).to_owned(),
                                reading: Some(input.substring_char(p + 1, n).to_owned()),
                                sense_index: None,
                            },
                        )
                    } else {
                        Err(fail)
                    }
                },
                Some(q) => {
                    if find_sep(&chars, q + 1).is_some() {
                        return Err(fail);
                    }
                    match crate::text::parse_decimal_capped(&chars, q + 1, n, 255) {
                        Some(v) => {
                            if q == p + 1 {
                                return Err(fail);
                            }
                            Ok(
                                CrossReference {
                                    kanji_or_reading: input.substring_char(0, p).to_owned(),
                                    reading: Some(input.substring_char(p + 1, q).to_owned()),
                                    sense_index: Some(v as u8),
                                },
                            )
                        },
                        None => Err(fail),
                    }
                },
            }
        },
    }
}

} // verus!
