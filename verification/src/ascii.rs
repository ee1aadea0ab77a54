//! ASCII case folding and character classification used by the
//! case-insensitive keyword dispatch of the rule and expression grammars.

use vstd::prelude::*;

verus! {

/// ASCII lower-casing of one character; everything but `A`..`Z` is unchanged.
pub open spec fn lower_char(c: char) -> char {
    if 65 <= c as u32 && c as u32 <= 90 {
        ((c as u8) + 32) as char
    } else {
        c
    }
}

/// Character sequences equal up to ASCII case.
pub open spec fn eq_ignore_ascii_case_seq(a: Seq<char>, b: Seq<char>) -> bool {
    a.len() == b.len() && forall|i: int| 0 <= i < a.len() ==> lower_char(a[i]) == lower_char(b[i])
}

/// A printable-ASCII character, as OpenType feature tags require:
/// strictly above space, at most `~`.
pub open spec fn is_printable_ascii_char(c: char) -> bool {
    32 < c as u32 && c as u32 <= 126
}

pub fn lower_char_exec(c: char) -> (r: char)
    ensures
        r == lower_char(c),
{
    let u = c as u32;
    if 65 <= u && u <= 90 {
        ((c as u8) + 32) as char
    } else {
        c
    }
}

/// Case-insensitive ASCII comparison of two strings, the backbone of every
/// keyword lookup in the grammars.
pub fn ascii_case_insensitive_eq(a: &str, b: &str) -> (r: bool)
    ensures
        r == eq_ignore_ascii_case_seq(a@, b@),
{
    let alen = a.unicode_len();
    let blen = b.unicode_len();
    if alen != blen {
        return false;
    }
    let mut i: usize = 0;
    while i < alen
        invariant
            alen == a@.len(),
            blen == b@.len(),
            alen == blen,
            0 <= i <= alen,
            forall|j: int| 0 <= j < i ==> lower_char(a@[j]) == lower_char(b@[j]),
        decreases alen - i,
    {
        let ca = lower_char_exec(a.get_char(i));
        let cb = lower_char_exec(b.get_char(i));
        if ca != cb {
            return false;
        }
        i = i + 1;
    }
    true
}

/// Exact (case-sensitive) string equality.
pub fn str_exact_eq(a: &str, b: &str) -> (r: bool)
    ensures
        r == (a@ == b@),
{
    let alen = a.unicode_len();
    let blen = b.unicode_len();
    if alen != blen {
        return false;
    }
    let mut i: usize = 0;
    while i < alen
        invariant
            alen == a@.len(),
            blen == b@.len(),
            alen == blen,
            0 <= i <= alen,
            forall|j: int| 0 <= j < i ==> a@[j] == b@[j],
        decreases alen - i,
    {
        if a.get_char(i) != b.get_char(i) {
            return false;
        }
        i = i + 1;
    }
    proof {
        assert(a@ =~= b@);
    }
    true
}

pub fn is_printable_ascii_char_exec(c: char) -> (r: bool)
    ensures
        r == is_printable_ascii_char(c),
{
    let u = c as u32;
    32 < u && u <= 126
}

/// Whether every character of the string is printable ASCII.
pub fn str_is_printable_ascii(s: &str) -> (r: bool)
    ensures
        r == forall|i: int| 0 <= i < s@.len() ==> is_printable_ascii_char(s@[i]),
{
    let len = s.unicode_len();
    let mut i: usize = 0;
    while i < len
        invariant
            len == s@.len(),
            0 <= i <= len,
            forall|j: int| 0 <= j < i ==> is_printable_ascii_char(s@[j]),
        decreases len - i,
    {
        if !is_printable_ascii_char_exec(s.get_char(i)) {
            return false;
        }
        i = i + 1;
    }
    true
}

/// Whether the string starts with two dashes, as `var()` custom property
/// names must.
pub fn str_starts_with_double_dash(s: &str) -> (r: bool)
    ensures
        r == (s@.len() >= 2 && s@[0] == '-' && s@[1] == '-'),
{
    let len = s.unicode_len();
    if len < 2 {
        return false;
    }
    let c0 = s.get_char(0);
    let c1 = s.get_char(1);
    c0 == '-' && c1 == '-'
}

} // verus!
