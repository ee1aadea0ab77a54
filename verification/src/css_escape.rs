//! CSS identifier and string escaping, done by the `cssparser` crate.
//!
//! The escaped forms depend on the input characters alone, so they are named
//! by uninterpreted spec functions; selector serialization builds canonical
//! text out of them.

use vstd::prelude::*;

verus! {

/// The CSS-escaped form of an identifier.
pub uninterp spec fn css_escaped_ident(s: Seq<char>) -> Seq<char>;

/// The double-quoted, CSS-escaped form of a string value.
pub uninterp spec fn css_quoted_string(s: Seq<char>) -> Seq<char>;

/// Relies on cssparser::serialize_identifier: writes the escaped form of an
/// identifier, a function of the characters alone; an empty input writes
/// nothing.
#[verifier::external_body]
pub fn escape_ident(s: &str) -> (r: String)
    ensures
        r@ == css_escaped_ident(s@),
        s@.len() == 0 ==> r@.len() == 0,
{
    let mut out = String::new();
    let _ = cssparser::serialize_identifier(s, &mut out);
    out
}

/// Relies on cssparser::serialize_string: writes `"`, the escaped value and
/// a closing `"`, a function of the characters alone.
#[verifier::external_body]
pub fn escape_string(s: &str) -> (r: String)
    ensures
        r@ == css_quoted_string(s@),
        r@.len() >= 2,
        r@[0] == '"',
        r@[r@.len() - 1] == '"',
{
    let mut out = String::new();
    let _ = cssparser::serialize_string(s, &mut out);
    out
}

} // verus!
