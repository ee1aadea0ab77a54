//! Property declarations: `name: value` pairs with an optional
//! `!important` marker, parsed per declaration by the expression machinery,
//! last write winning for a repeated property name.

use vstd::prelude::*;
use crate::ascii::ascii_case_insensitive_eq;
use crate::context::CssRuleType;
use crate::context::ParserContext;
use crate::errors::CustomParseError;
use crate::errors::PreciseParseError;
use crate::expressions::CalculablePropertyValue;
use crate::numbers::CssUnsignedNumber;
use crate::tokens::CssToken;
use crate::tokens::TokenStream;
use crate::units::PercentageUnit;

verus! {

/// A raw, structurally balanced value that no numeric grammar accepted.
#[derive(Debug, PartialEq)]
pub struct UnparsedPropertyValue {
    pub tokens: Vec<CssToken>,
}

/// One declaration's value: dimensioned, dimensionless, or kept raw.
#[derive(Debug, PartialEq)]
pub enum SpecifiedValue {
    Dimension(CalculablePropertyValue<PercentageUnit<CssUnsignedNumber>>),
    Number(CalculablePropertyValue<CssUnsignedNumber>),
    Unparsed(UnparsedPropertyValue),
}

/// One `property: value` declaration.
#[derive(Debug, PartialEq)]
pub struct PropertyDeclaration {
    pub name: String,
    pub value: SpecifiedValue,
    pub important: bool,
}

/// An ordered declaration list with unique names: a later write to a name
/// replaces the earlier one in place.
#[derive(Debug, PartialEq)]
pub struct PropertyDeclarations(pub Vec<PropertyDeclaration>);

/// The first index at or after `i` whose declaration has the given name,
/// or the length.
pub open spec fn find_declaration(
    decls: Seq<PropertyDeclaration>,
    name: Seq<char>,
    i: int,
) -> int
    decreases decls.len() - i,
{
    if i < 0 || i >= decls.len() {
        i
    } else if decls[i].name@ == name {
        i
    } else {
        find_declaration(decls, name, i + 1)
    }
}

pub proof fn lemma_find_declaration(decls: Seq<PropertyDeclaration>, name: Seq<char>, i: int)
    requires
        0 <= i <= decls.len(),
    ensures
        i <= find_declaration(decls, name, i) <= decls.len(),
        find_declaration(decls, name, i) < decls.len() ==> decls[find_declaration(
            decls,
            name,
            i,
        )].name@ == name,
        forall|j: int| i <= j < find_declaration(decls, name, i) ==> decls[j].name@ != name,
    decreases decls.len() - i,
{
    if i < decls.len() && decls[i].name@ != name {
        lemma_find_declaration(decls, name, i + 1);
    }
}

/// Replaces the first declaration with the same name in place, or appends:
/// last write wins, first position kept.
#[verifier::loop_isolation(false)]
pub fn update_or_push_declaration(
    declarations: &mut Vec<PropertyDeclaration>,
    declaration: PropertyDeclaration,
)
    ensures
        ({
            let k = find_declaration(old(declarations)@, declaration.name@, 0);
            &&& k < old(declarations)@.len() ==> final(declarations)@ == old(
                declarations,
            )@.update(k, declaration)
            &&& k == old(declarations)@.len() ==> final(declarations)@ == old(
                declarations,
            )@.push(declaration)
        }),
{
    proof {
        lemma_find_declaration(declarations@, declaration.name@, 0);
    }
    let mut i: usize = 0;
    while i < declarations.len()
        invariant
            0 <= i <= declarations@.len(),
            declarations@ == old(declarations)@,
            find_declaration(declarations@, declaration.name@, i as int) == find_declaration(
                declarations@,
                declaration.name@,
                0,
            ),
        decreases declarations@.len() - i,
    {
        if declarations[i].name.eq(&declaration.name) {
            declarations[i] = declaration;
            return ;
        }
        i = i + 1;
    }
    declarations.push(declaration);
}

/// Whether the next token ends a declaration value cleanly: a terminator,
/// the important marker, or the end of the input.
pub open spec fn spec_at_value_end(input: TokenStream) -> bool {
    ||| input.spec_next_pos() == input.tokens@.len()
    ||| input.tokens@[input.spec_next_pos()] is Semicolon
    ||| input.tokens@[input.spec_next_pos()] is CloseCurlyBracket
    ||| input.tokens@[input.spec_next_pos()] == CssToken::Delim('!')
}

fn at_value_end(input: &TokenStream) -> (r: bool)
    requires
        input.wf(),
    ensures
        r == spec_at_value_end(*input),
{
    proof {
        crate::tokens::lemma_next_non_ws(input.tokens@, input.pos as int);
    }
    match input.peek() {
        None => true,
        Some(CssToken::Semicolon) => true,
        Some(CssToken::CloseCurlyBracket) => true,
        Some(CssToken::Delim(c)) => c == '!',
        _ => false,
    }
}

/// No two declarations in the list share a name: what last-wins updating
/// keeps true.
pub open spec fn declarations_have_unique_names(decls: Seq<PropertyDeclaration>) -> bool {
    forall|i: int, j: int|
        0 <= i < j < decls.len() ==> #[trigger] decls[i].name@ != #[trigger] decls[j].name@
}

/// In-place update and plain append both keep names unique.
pub proof fn lemma_update_or_push_keeps_unique_names(
    decls: Seq<PropertyDeclaration>,
    d: PropertyDeclaration,
)
    requires
        declarations_have_unique_names(decls),
    ensures
        0 <= find_declaration(decls, d.name@, 0) <= decls.len(),
        find_declaration(decls, d.name@, 0) < decls.len() ==> declarations_have_unique_names(
            decls.update(find_declaration(decls, d.name@, 0), d),
        ),
        find_declaration(decls, d.name@, 0) == decls.len() ==> declarations_have_unique_names(
            decls.push(d),
        ),
{
    lemma_find_declaration(decls, d.name@, 0);
    let k = find_declaration(decls, d.name@, 0);
    if k < decls.len() {
        let updated = decls.update(k, d);
        assert forall|i: int, j: int| 0 <= i < j < updated.len() implies #[trigger] updated[i].name@
            != #[trigger] updated[j].name@ by {
            if i != k && j != k {
                assert(updated[i] == decls[i] && updated[j] == decls[j]);
            } else if i == k {
                assert(updated[j] == decls[j]);
                assert(decls[k].name@ == d.name@);
            } else {
                assert(updated[i] == decls[i]);
                assert(decls[k].name@ == d.name@);
            }
        }
    } else {
        let pushed = decls.push(d);
        assert forall|i: int, j: int| 0 <= i < j < pushed.len() implies #[trigger] pushed[i].name@
            != #[trigger] pushed[j].name@ by {
            if j < decls.len() {
                assert(pushed[i] == decls[i] && pushed[j] == decls[j]);
            } else {
                assert(pushed[i] == decls[i] && pushed[j] == d);
            }
        }
    }
}

impl PropertyDeclarations {
    /// Parses a `{}` declaration list body, the opening brace already
    /// consumed, through its closing brace. Each value is tried against
    /// the dimensioned grammar, then the dimensionless one, and kept raw
    /// where neither fits; `!important` marks the declaration, but is
    /// rejected inside keyframes.
    #[verifier::loop_isolation(false)]
    pub fn parse_property_declaration_list(context: &ParserContext, input: &mut TokenStream) -> (r:
        Result<PropertyDeclarations, PreciseParseError>)
        requires
            old(input).wf(),
        ensures
            final(input).wf(),
            final(input).tokens@ == old(input).tokens@,
            old(input).pos <= final(input).pos,
            r matches Ok(d) ==> declarations_have_unique_names(d.0@),
            ({
                let j = old(input).spec_next_pos();
                let toks = old(input).tokens@;
                &&& j == toks.len() ==> (r matches Ok(d) && d.0@.len() == 0)
                &&& j < toks.len() && toks[j] is CloseCurlyBracket ==> (r matches Ok(d) && d.0@.len()
                    == 0 && final(input).pos == j + 1)
            }),
    {
        let mut declarations: Vec<PropertyDeclaration> = Vec::new();
        loop
            invariant
                input.wf(),
                input.tokens@ == old(input).tokens@,
                old(input).pos <= input.pos,
                declarations_have_unique_names(declarations@),
                ({
                    let j = old(input).spec_next_pos();
                    let toks = old(input).tokens@;
                    (j == toks.len() || (j < toks.len() && toks[j] is CloseCurlyBracket))
                        ==> input.pos == old(input).pos && declarations@.len() == 0
                }),
            decreases input.tokens@.len() - input.pos,
        {
            input.skip_whitespace();
            match input.peek() {
                None => {
                    return Ok(PropertyDeclarations(declarations));
                },
                Some(CssToken::CloseCurlyBracket) => {
                    let _ = match input.next() {
                        Ok(t) => t,
                        Err(e) => {
                            return Err(e);
                        },
                    };
                    return Ok(PropertyDeclarations(declarations));
                },
                Some(CssToken::Semicolon) => {
                    let _ = match input.next() {
                        Ok(t) => t,
                        Err(e) => {
                            return Err(e);
                        },
                    };
                },
                _ => {
                    let name = match input.expect_ident() {
                        Ok(n) => n,
                        Err(e) => {
                            return Err(e);
                        },
                    };
                    match input.next() {
                        Ok(CssToken::Colon) => {},
                        Ok(t) => {
                            return Err(input.new_unexpected_token_error(t));
                        },
                        Err(e) => {
                            return Err(e);
                        },
                    }
                    let value = Self::parse_value(context, input);
                    let mut important = false;
                    match input.peek() {
                        Some(CssToken::Delim('!')) => {
                            let _ = match input.next() {
                                Ok(t) => t,
                                Err(e) => {
                                    return Err(e);
                                },
                            };
                            let marker = match input.expect_ident() {
                                Ok(m) => m,
                                Err(e) => {
                                    return Err(e);
                                },
                            };
                            if !ascii_case_insensitive_eq(marker.as_str(), "important") {
                                return Err(
                                    input.new_custom_error(
                                        CustomParseError::UnexpectedCustomIdent(marker),
                                    ),
                                );
                            }
                            if matches!(context.rule_type, Some(CssRuleType::Keyframe)) {
                                return Err(
                                    input.new_custom_error(
                                        CustomParseError::ImportantIsNotAllowedInKeyframePropertyDeclarationValues,
                                    ),
                                );
                            }
                            important = true;
                        },
                        _ => {},
                    }
                    let declaration = PropertyDeclaration { name, value, important };
                    proof {
                        lemma_update_or_push_keeps_unique_names(declarations@, declaration);
                    }
                    update_or_push_declaration(&mut declarations, declaration);
                },
            }
        }
    }

    /// One declaration's value: the dimensioned grammar first, then the
    /// dimensionless one, then the raw fallback; total within a balanced
    /// value.
    fn parse_value(context: &ParserContext, input: &mut TokenStream) -> (r: SpecifiedValue)
        requires
            old(input).wf(),
        ensures
            final(input).wf(),
            final(input).tokens@ == old(input).tokens@,
            old(input).pos <= final(input).pos,
    {
        let save = input.position();
        match PercentageUnit::<CssUnsignedNumber>::parse_one_outside_calc_function(context, input) {
            Ok(v) => {
                if at_value_end(input) {
                    return SpecifiedValue::Dimension(v);
                }
            },
            Err(_) => {},
        }
        input.reset(save);
        match CssUnsignedNumber::parse_one_outside_calc_function(context, input) {
            Ok(v) => {
                if at_value_end(input) {
                    return SpecifiedValue::Number(v);
                }
            },
            Err(_) => {},
        }
        input.reset(save);
        let tokens = input.collect_declaration_value();
        SpecifiedValue::Unparsed(UnparsedPropertyValue { tokens })
    }
}

} // verus!
