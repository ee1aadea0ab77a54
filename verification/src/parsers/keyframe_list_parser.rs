//! The keyframe list grammar: `from | to | <percentage>` selectors, each
//! with a declaration block.

use vstd::prelude::*;
use crate::ascii::ascii_case_insensitive_eq;
use crate::ascii::eq_ignore_ascii_case_seq;
use crate::context::CssRuleType;
use crate::context::ParserContext;
use crate::errors::CustomParseError;
use crate::errors::ParseErrorKind;
use crate::errors::PreciseParseError;
use crate::numbers::CSS_NUMBER_SCALE;
use crate::properties::PropertyDeclarations;
use crate::tokens::CssToken;
use crate::tokens::TokenStream;

verus! {

/// One keyframe stop, as a fixed-point fraction of the animation:
/// `from` is 0, `to` is one, a percentage is its unit value.
#[derive(Debug, Clone, Copy, PartialEq, Eq, Structural)]
pub struct KeyframePercentage(pub i64);

impl KeyframePercentage {
    /// A stop lies between zero and one inclusive.
    pub open spec fn wf(self) -> bool {
        0 <= self.0 <= CSS_NUMBER_SCALE
    }

    /// Parses one keyframe stop; a percentage outside zero to one is
    /// rejected with its value.
    pub fn parse(input: &mut TokenStream) -> (r: Result<KeyframePercentage, PreciseParseError>)
        requires
            old(input).wf(),
        ensures
            final(input).wf(),
            final(input).tokens@ == old(input).tokens@,
            old(input).pos <= final(input).pos,
            r is Ok ==> final(input).pos > old(input).pos,
            r is Ok ==> final(input).pos == old(input).spec_next_pos() + 1,
            r matches Ok(p) ==> p.wf(),
            ({
                let j = old(input).spec_next_pos();
                let toks = old(input).tokens@;
                &&& j < toks.len() ==> (toks[j] matches CssToken::Ident(s) ==> {
                    &&& eq_ignore_ascii_case_seq(s@, "from"@) ==> r == Ok::<_, PreciseParseError>(
                        KeyframePercentage(0),
                    )
                    &&& !eq_ignore_ascii_case_seq(s@, "from"@) && eq_ignore_ascii_case_seq(
                        s@,
                        "to"@,
                    ) ==> r == Ok::<_, PreciseParseError>(KeyframePercentage(CSS_NUMBER_SCALE))
                })
                &&& j < toks.len() ==> (toks[j] matches CssToken::Percentage {
                    unit_value_units: u,
                } ==> {
                    &&& 0 <= u <= CSS_NUMBER_SCALE ==> r == Ok::<_, PreciseParseError>(
                        KeyframePercentage(u),
                    )
                    &&& !(0 <= u <= CSS_NUMBER_SCALE) ==> (r matches Err(e) && e.kind
                        matches ParseErrorKind::Custom(ce) && ce
                        == CustomParseError::KeyframePercentageWasNotBetweenZeroAndOneInclusive(u))
                })
            }),
    {
        match input.next() {
            Ok(CssToken::Ident(s)) => {
                if ascii_case_insensitive_eq(s.as_str(), "from") {
                    Ok(KeyframePercentage(0))
                } else if ascii_case_insensitive_eq(s.as_str(), "to") {
                    Ok(KeyframePercentage(CSS_NUMBER_SCALE))
                } else {
                    Err(input.new_unexpected_token_error(CssToken::Ident(s)))
                }
            },
            Ok(CssToken::Percentage { unit_value_units }) => {
                if 0 <= unit_value_units && unit_value_units <= CSS_NUMBER_SCALE {
                    Ok(KeyframePercentage(unit_value_units))
                } else {
                    Err(
                        input.new_custom_error(
                            CustomParseError::KeyframePercentageWasNotBetweenZeroAndOneInclusive(
                                unit_value_units,
                            ),
                        ),
                    )
                }
            },
            Ok(t) => Err(input.new_unexpected_token_error(t)),
            Err(e) => Err(e),
        }
    }
}

/// The comma-separated stop list before a keyframe's block.
#[derive(Debug, PartialEq)]
pub struct KeyframeSelector(pub Vec<KeyframePercentage>);

impl KeyframeSelector {
    /// Parses a non-empty, comma-separated stop list.
    #[verifier::loop_isolation(false)]
    pub fn parse(input: &mut TokenStream) -> (r: Result<KeyframeSelector, PreciseParseError>)
        requires
            old(input).wf(),
        ensures
            final(input).wf(),
            final(input).tokens@ == old(input).tokens@,
            old(input).pos <= final(input).pos,
            r is Ok ==> final(input).pos > old(input).pos,
            r matches Ok(s) ==> s.0@.len() >= 1 && forall|i: int|
                0 <= i < s.0@.len() ==> (#[trigger] s.0@[i]).wf(),
            ({
                let j = old(input).spec_next_pos();
                let toks = old(input).tokens@;
                let k = crate::tokens::next_non_ws(toks, j + 1);
                &&& j < toks.len() ==> (toks[j] matches CssToken::Ident(w) ==> (
                eq_ignore_ascii_case_seq(w@, "from"@) && (k == toks.len() || !(toks[k] is Comma))
                    ==> (r matches Ok(s) && s.0@ =~= seq![KeyframePercentage(0)] && final(input).pos == j + 1)))
                &&& j < toks.len() ==> (toks[j] matches CssToken::Percentage {
                    unit_value_units: u,
                } ==> (0 <= u <= CSS_NUMBER_SCALE && (k == toks.len() || !(toks[k] is Comma))
                    ==> (r matches Ok(s) && s.0@ =~= seq![KeyframePercentage(u)] && final(input).pos == j + 1)))
            }),
    {
        let mut stops: Vec<KeyframePercentage> = Vec::new();
        loop
            invariant
                input.wf(),
                input.tokens@ == old(input).tokens@,
                old(input).pos <= input.pos,
                stops@.len() > 0 ==> old(input).pos < input.pos,
                stops@.len() == 0 ==> input.pos == old(input).pos,
                forall|i: int| 0 <= i < stops@.len() ==> (#[trigger] stops@[i]).wf(),
                ({
                    let j = old(input).spec_next_pos();
                    let toks = old(input).tokens@;
                    let k = crate::tokens::next_non_ws(toks, j + 1);
                    &&& j < toks.len() ==> (toks[j] matches CssToken::Ident(w) ==> (
                    eq_ignore_ascii_case_seq(w@, "from"@) && (k == toks.len() || !(toks[k]
                        is Comma)) ==> stops@.len() == 0))
                    &&& j < toks.len() ==> (toks[j] matches CssToken::Percentage {
                        unit_value_units: u,
                    } ==> (0 <= u <= CSS_NUMBER_SCALE && (k == toks.len() || !(toks[k] is Comma))
                        ==> stops@.len() == 0))
                }),
            decreases input.tokens@.len() - input.pos,
        {
            let stop = match KeyframePercentage::parse(input) {
                Ok(p) => p,
                Err(e) => {
                    return Err(e);
                },
            };
            stops.push(stop);
            match input.peek() {
                Some(CssToken::Comma) => {
                    let _ = match input.next() {
                        Ok(t) => t,
                        Err(e) => {
                            return Err(e);
                        },
                    };
                },
                _ => {
                    return Ok(KeyframeSelector(stops));
                },
            }
        }
    }
}

/// One keyframe: its stop list and its declarations.
#[derive(Debug, PartialEq)]
pub struct Keyframe {
    pub selector: KeyframeSelector,
    pub property_declarations: PropertyDeclarations,
}

/// Parses a keyframes rule's block: a list of keyframes, each a stop list
/// and a declaration block.
pub struct KeyframeListParser<'a> {
    pub context: &'a ParserContext,
}

impl<'a> KeyframeListParser<'a> {
    /// One keyframe's prelude: its stop list.
    pub fn parse_prelude(&self, input: &mut TokenStream) -> (r: Result<
        KeyframeSelector,
        PreciseParseError,
    >)
        requires
            old(input).wf(),
        ensures
            final(input).wf(),
            final(input).tokens@ == old(input).tokens@,
            old(input).pos <= final(input).pos,
            r is Ok ==> final(input).pos > old(input).pos,
            ({
                let j = old(input).spec_next_pos();
                let toks = old(input).tokens@;
                let k = crate::tokens::next_non_ws(toks, j + 1);
                &&& j < toks.len() ==> (toks[j] matches CssToken::Ident(w) ==> (
                eq_ignore_ascii_case_seq(w@, "from"@) && (k == toks.len() || !(toks[k] is Comma))
                    ==> (r matches Ok(s) && s.0@ =~= seq![KeyframePercentage(0)] && final(input).pos == j + 1)))
                &&& j < toks.len() ==> (toks[j] matches CssToken::Percentage {
                    unit_value_units: u,
                } ==> (0 <= u <= CSS_NUMBER_SCALE && (k == toks.len() || !(toks[k] is Comma))
                    ==> (r matches Ok(s) && s.0@ =~= seq![KeyframePercentage(u)] && final(input).pos == j + 1)))
            }),
    {
        KeyframeSelector::parse(input)
    }

    /// One keyframe's block, the opening brace already consumed: its
    /// declarations, parsed in a keyframe-typed context so `!important` is
    /// rejected.
    pub fn parse_block(&self, selector: KeyframeSelector, input: &mut TokenStream) -> (r: Result<
        Keyframe,
        PreciseParseError,
    >)
        requires
            old(input).wf(),
        ensures
            final(input).wf(),
            final(input).tokens@ == old(input).tokens@,
            old(input).pos <= final(input).pos,
            r matches Ok(k) ==> k.selector == selector,
            ({
                let j = old(input).spec_next_pos();
                let toks = old(input).tokens@;
                &&& j == toks.len() ==> (r matches Ok(k) && k.property_declarations.0@.len() == 0)
                &&& j < toks.len() && toks[j] is CloseCurlyBracket ==> (r matches Ok(k)
                    && k.property_declarations.0@.len() == 0 && final(input).pos == j + 1)
            }),
    {
        let context = ParserContext::new_with_rule_type(self.context, CssRuleType::Keyframe);
        let property_declarations = match PropertyDeclarations::parse_property_declaration_list(
            &context,
            input,
        ) {
            Ok(d) => d,
            Err(e) => {
                return Err(e);
            },
        };
        Ok(Keyframe { selector, property_declarations })
    }

    /// Parses a keyframe list through the closing brace of the `@keyframes`
    /// block, with rule-list recovery: a malformed keyframe is skipped, its
    /// error discarded, and scanning resumes at the next rule boundary.
    #[verifier::loop_isolation(false)]
    pub fn parse_keyframe_list(context: &ParserContext, input: &mut TokenStream) -> (r: Result<
        Vec<Keyframe>,
        PreciseParseError,
    >)
        requires
            old(input).wf(),
        ensures
            final(input).wf(),
            final(input).tokens@ == old(input).tokens@,
            old(input).pos <= final(input).pos,
            ({
                let j = old(input).spec_next_pos();
                let toks = old(input).tokens@;
                &&& j == toks.len() ==> (r matches Ok(v) && v@.len() == 0)
                &&& j < toks.len() && toks[j] is CloseCurlyBracket ==> (r matches Ok(v) && v@.len()
                    == 0 && final(input).pos == j + 1)
            }),
            ({
                let j = old(input).spec_next_pos();
                let toks = old(input).tokens@;
                let k = crate::tokens::next_non_ws(toks, j + 1);
                let m = crate::tokens::next_non_ws(toks, k + 1);
                let q = crate::tokens::next_non_ws(toks, m + 1);
                j < toks.len() ==> (toks[j] matches CssToken::Ident(w) ==> (
                eq_ignore_ascii_case_seq(w@, "from"@) && k < toks.len() && toks[k]
                    is CurlyBracketBlock && m < toks.len() && toks[m] is CloseCurlyBracket && (q
                    == toks.len() || (q < toks.len() && toks[q] is CloseCurlyBracket)) ==> (
                r matches Ok(v) && v@.len() == 1 && v@[0].selector.0@ =~= seq![
                    KeyframePercentage(0)] && v@[0].property_declarations.0@.len() == 0)))
            }),
    {
        let parser = KeyframeListParser { context };
        let mut keyframes: Vec<Keyframe> = Vec::new();
        loop
            invariant
                input.wf(),
                input.tokens@ == old(input).tokens@,
                old(input).pos <= input.pos,
                ({
                    let j = old(input).spec_next_pos();
                    let toks = old(input).tokens@;
                    (j == toks.len() || (j < toks.len() && toks[j] is CloseCurlyBracket))
                        ==> input.pos == old(input).pos && keyframes@.len() == 0
                }),
                ({
                    let j = old(input).spec_next_pos();
                    let toks = old(input).tokens@;
                    let k = crate::tokens::next_non_ws(toks, j + 1);
                    let m = crate::tokens::next_non_ws(toks, k + 1);
                    let q = crate::tokens::next_non_ws(toks, m + 1);
                    j < toks.len() ==> (toks[j] matches CssToken::Ident(w) ==> (
                    eq_ignore_ascii_case_seq(w@, "from"@) && k < toks.len() && toks[k]
                        is CurlyBracketBlock && m < toks.len() && toks[m] is CloseCurlyBracket
                        && (q == toks.len() || (q < toks.len() && toks[q] is CloseCurlyBracket))
                        ==> ((keyframes@.len() == 0 && input.pos == old(input).pos) || (
                    keyframes@.len() == 1 && keyframes@[0].selector.0@ =~= seq![
                        KeyframePercentage(0)] && keyframes@[0].property_declarations.0@.len()
                        == 0 && input.pos == m + 1))))
                }),
            decreases input.tokens@.len() - input.pos,
        {
            input.skip_whitespace();
            let save = input.position();
            match input.peek() {
                None => {
                    return Ok(keyframes);
                },
                Some(CssToken::CloseCurlyBracket) => {
                    let _ = match input.next() {
                        Ok(t) => t,
                        Err(e) => {
                            return Err(e);
                        },
                    };
                    return Ok(keyframes);
                },
                _ => {
                    let ok = match parser.parse_prelude(input) {
                        Ok(selector) => {
                            match input.peek() {
                                Some(CssToken::CurlyBracketBlock) => {
                                    let _ = match input.next() {
                                        Ok(t) => t,
                                        Err(e) => {
                                            return Err(e);
                                        },
                                    };
                                    match parser.parse_block(selector, input) {
                                        Ok(keyframe) => {
                                            keyframes.push(keyframe);
                                            true
                                        },
                                        Err(_) => false,
                                    }
                                },
                                _ => false,
                            }
                        },
                        Err(_) => false,
                    };
                    if !ok {
                        input.reset(save);
                        input.skip_invalid_rule();
                    }
                },
            }
        }
    }
}

} // verus!
