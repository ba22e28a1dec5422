//! Character-level helpers shared by the decoders and assemblers:
//! whitespace classification, decimal-digit parsing, and conversion of
//! string slices to character vectors.

use vstd::prelude::*;

verus! {

/// The characters `str::trim` removes: the Unicode `White_Space` set.
pub open spec fn is_space_char(c: char) -> bool {
    ||| c == ' '
    ||| c == '\t'
    ||| c == '\n'
    ||| c == '\r'
    ||| c == '\u{0b}'
    ||| c == '\u{0c}'
    ||| c == '\u{85}'
    ||| c == '\u{a0}'
    ||| c == '\u{1680}'
    ||| ('\u{2000}' <= c && c <= '\u{200a}')
    ||| c == '\u{2028}'
    ||| c == '\u{2029}'
    ||| c == '\u{202f}'
    ||| c == '\u{205f}'
    ||| c == '\u{3000}'
}

/// A text is trimmed when it neither starts nor ends with whitespace.
pub open spec fn is_trimmed(s: Seq<char>) -> bool {
    s.len() == 0 || (!is_space_char(s[0]) && !is_space_char(s[s.len() - 1]))
}

/// A text made of whitespace alone (an empty text counts).
pub open spec fn all_space(s: Seq<char>) -> bool {
    forall|i: int| 0 <= i < s.len() ==> is_space_char(#[trigger] s[i])
}

pub fn space_char(c: char) -> (r: bool)
    ensures
        r == is_space_char(c),
{
    c == ' ' || c == '\t' || c == '\n' || c == '\r' || c == '\u{0b}' || c == '\u{0c}'
        || c == '\u{85}' || c == '\u{a0}' || c == '\u{1680}'
        || ('\u{2000}' <= c && c <= '\u{200a}') || c == '\u{2028}' || c == '\u{2029}'
        || c == '\u{202f}' || c == '\u{205f}' || c == '\u{3000}'
}

/// Whether `s` is made of whitespace alone.
pub fn all_space_str(s: &str) -> (r: bool)
    ensures
        r == all_space(s@),
{
    let n = s.unicode_len();
    let mut i: usize = 0;
    while i < n
        invariant
            n == s@.len(),
            i <= n,
            forall|j: int| 0 <= j < i ==> is_space_char(#[trigger] s@[j]),
        decreases n - i,
    {
        if !space_char(s.get_char(i)) {
            return false;
        }
        i += 1;
    }
    true
}

pub open spec fn is_digit_char(c: char) -> bool {
    '0' <= c && c <= '9'
}

pub open spec fn digit_of(c: char) -> nat
    recommends
        is_digit_char(c),
{
    ((c as int) - ('0' as int)) as nat
}

/// Every character in `s[from..to]` is a decimal digit.
pub open spec fn all_digits(s: Seq<char>, from: int, to: int) -> bool {
    forall|i: int| from <= i < to ==> is_digit_char(#[trigger] s[i])
}

/// The value of the decimal digits `s[from..to]`, most significant first.
pub open spec fn dec_val(s: Seq<char>, from: int, to: int) -> nat
    decreases to - from,
{
    if to <= from {
        0
    } else {
        dec_val(s, from, to - 1) * 10 + digit_of(s[to - 1])
    }
}

/// Extending a digit run to the right never shrinks its value.
pub proof fn lemma_dec_val_monotone(s: Seq<char>, from: int, mid: int, to: int)
    requires
        from <= mid <= to,
    ensures
        dec_val(s, from, mid) <= dec_val(s, from, to),
    decreases to - mid,
{
    if mid < to {
        lemma_dec_val_monotone(s, from, mid, to - 1);
        assert(dec_val(s, from, to - 1) * 10 >= dec_val(s, from, to - 1)) by {
            assert(dec_val(s, from, to - 1) * 10 == dec_val(s, from, to - 1) * 10);
        }
    }
}

/// The characters of `s`, one vector element per character.
pub fn chars_of(s: &str) -> (r: Vec<char>)
    ensures
        r@ == s@,
{
    let n = s.unicode_len();
    let mut r: Vec<char> = Vec::new();
    let mut i: usize = 0;
    while i < n
        invariant
            n == s@.len(),
            i <= n,
            r@ == s@.subrange(0, i as int),
        decreases n - i,
    {
        r.push(s.get_char(i));
        i += 1;
        assert(r@ =~= s@.subrange(0, i as int));
    }
    assert(r@ =~= s@);
    r
}

/// The value of `s` read as a base-10 unsigned integer, as `u32`
/// parsing accepts it: an optional leading `+`, then one or more
/// decimal digits, with a value that fits in 32 bits.
pub open spec fn u32_of_decimal(s: Seq<char>) -> Option<u32> {
    let from: int = if s.len() > 0 && s[0] == '+' {
        1
    } else {
        0
    };
    if s.len() > from && all_digits(s, from, s.len() as int) && dec_val(s, from, s.len() as int)
        <= u32::MAX {
        Some(dec_val(s, from, s.len() as int) as u32)
    } else {
        None
    }
}

/// Parses `s` as a base-10 unsigned integer, exactly as
/// [`u32_of_decimal`] states it.
pub fn parse_u32(s: &str) -> (r: Option<u32>)
    ensures
        r == u32_of_decimal(s@),
{
    let chars = chars_of(s);
    let n = chars.len();
    let from: usize = if n > 0 && chars[0] == '+' {
        1
    } else {
        0
    };
    parse_decimal_capped(&chars, from, n, u32::MAX)
}

/// Whether two string slices hold the same characters.
pub fn str_eq(a: &str, b: &str) -> (r: bool)
    ensures
        r == (a@ == b@),
{
    let n = a.unicode_len();
    let m = b.unicode_len();
    if n != m {
        return false;
    }
    let mut i: usize = 0;
    while i < n
        invariant
            n == a@.len() == b@.len(),
            i <= n,
            forall|j: int| 0 <= j < i ==> a@[j] == b@[j],
        decreases n - i,
    {
        if a.get_char(i) != b.get_char(i) {
            return false;
        }
        i += 1;
    }
    assert(a@ =~= b@);
    true
}

/// Parses `s[from..to]` as a run of decimal digits whose value is at most
/// `cap`; yields `None` when the run is empty, holds a non-digit, or its
/// value is over the cap.
pub fn parse_decimal_capped(s: &Vec<char>, from: usize, to: usize, cap: u32) -> (r: Option<u32>)
    requires
        from <= to <= s@.len(),
    ensures
        match r {
            Some(v) => from < to && all_digits(s@, from as int, to as int) && dec_val(
                s@,
                from as int,
                to as int,
            ) == v && v <= cap,
            None => from == to || !all_digits(s@, from as int, to as int) || dec_val(
                s@,
                from as int,
                to as int,
            ) > cap,
        },
{
    if from == to {
        return None;
    }
    let mut acc: u32 = 0;
    let mut i: usize = from;
    while i < to
        invariant
            from <= i <= to <= s@.len(),
            all_digits(s@, from as int, i as int),
            acc == dec_val(s@, from as int, i as int),
            acc <= cap,
        decreases to - i,
    {
        let c = s[i];
        if !('0' <= c && c <= '9') {
            assert(!is_digit_char(s@[i as int]));
            return None;
        }
        let d: u32 = (c as u32) - ('0' as u32);
        assert(d == digit_of(s@[i as int]));
        let wide: u64 = (acc as u64) * 10 + (d as u64);
        proof {
            assert(wide == dec_val(s@, from as int, i as int + 1));
        }
        if wide > cap as u64 {
            proof {
                lemma_dec_val_monotone(s@, from as int, i as int + 1, to as int);
            }
            return None;
        }
        acc = wide as u32;
        i += 1;
    }
    Some(acc)
}

} // verus!
