//! The `@font-feature-values` inner block grammar: a list of
//! `<ident>: <integer>+` declarations, a later declaration for the same
//! identifier replacing the earlier one in place.

use vstd::prelude::*;
use crate::context::ParserContext;
use crate::errors::CustomParseError;
use crate::errors::PreciseParseError;
use crate::rules::FontFeatureValuesDeclaration;
use crate::tokens::CssToken;
use crate::tokens::TokenStream;

verus! {

/// The values of the maximal run of non-negative integer tokens from `p`,
/// whitespace between them skipped; a token that is no such integer ends
/// the run.
pub open spec fn integer_run_values(toks: Seq<CssToken>, p: int) -> Seq<u32>
    decreases toks.len() - p,
    when 0 <= p <= toks.len()
{
    if p < toks.len() {
        if toks[p] is WhiteSpace {
            integer_run_values(toks, p + 1)
        } else {
            match toks[p] {
                CssToken::Number { int_value: Some(i), .. } => if i >= 0 {
                    seq![i as u32] + integer_run_values(toks, p + 1)
                } else {
                    Seq::empty()
                },
                _ => Seq::empty(),
            }
        }
    } else {
        Seq::empty()
    }
}

/// Skipping leading whitespace does not change the integer run.
pub proof fn lemma_integer_run_skips_ws(toks: Seq<CssToken>, p: int)
    requires
        0 <= p <= toks.len(),
    ensures
        integer_run_values(toks, p) == integer_run_values(
            toks,
            crate::tokens::next_non_ws(toks, p),
        ),
        crate::tokens::next_non_ws(toks, p) < toks.len() ==> !(toks[crate::tokens::next_non_ws(
            toks,
            p,
        )] is WhiteSpace),
    decreases toks.len() - p,
{
    if p < toks.len() && toks[p] is WhiteSpace {
        lemma_integer_run_skips_ws(toks, p + 1);
    }
}

/// The first index at or after `i` whose declaration has the given name,
/// or the length.
pub open spec fn find_feature_values_declaration(
    decls: Seq<FontFeatureValuesDeclaration>,
    name: Seq<char>,
    i: int,
) -> int
    decreases decls.len() - i,
{
    if i < 0 || i >= decls.len() {
        i
    } else if decls[i].name@ == name {
        i
    } else {
        find_feature_values_declaration(decls, name, i + 1)
    }
}

pub proof fn lemma_find_feature_values_declaration(
    decls: Seq<FontFeatureValuesDeclaration>,
    name: Seq<char>,
    i: int,
)
    requires
        0 <= i <= decls.len(),
    ensures
        i <= find_feature_values_declaration(decls, name, i) <= decls.len(),
        find_feature_values_declaration(decls, name, i) < decls.len() ==> decls[find_feature_values_declaration(
            decls,
            name,
            i,
        )].name@ == name,
        forall|j: int|
            i <= j < find_feature_values_declaration(decls, name, i) ==> decls[j].name@ != name,
    decreases decls.len() - i,
{
    if i < decls.len() && decls[i].name@ != name {
        lemma_find_feature_values_declaration(decls, name, i + 1);
    }
}

/// No two declarations in the list share an identifier.
pub open spec fn feature_values_have_unique_names(
    decls: Seq<FontFeatureValuesDeclaration>,
) -> bool {
    forall|i: int, j: int|
        0 <= i < j < decls.len() ==> #[trigger] decls[i].name@ != #[trigger] decls[j].name@
}

/// In-place update and plain append both keep identifiers unique.
pub proof fn lemma_feature_values_update_keeps_unique_names(
    decls: Seq<FontFeatureValuesDeclaration>,
    d: FontFeatureValuesDeclaration,
)
    requires
        feature_values_have_unique_names(decls),
    ensures
        0 <= find_feature_values_declaration(decls, d.name@, 0) <= decls.len(),
        find_feature_values_declaration(decls, d.name@, 0) < decls.len()
            ==> feature_values_have_unique_names(
            decls.update(find_feature_values_declaration(decls, d.name@, 0), d),
        ) && (forall|i: int|
            0 <= i < decls.len() ==> #[trigger] decls.update(
                find_feature_values_declaration(decls, d.name@, 0),
                d,
            )[i].name@ == decls[i].name@),
        find_feature_values_declaration(decls, d.name@, 0) == decls.len()
            ==> feature_values_have_unique_names(decls.push(d)) && (forall|i: int|
            0 <= i < decls.len() ==> #[trigger] decls.push(d)[i].name@ == decls[i].name@),
{
    lemma_find_feature_values_declaration(decls, d.name@, 0);
    let k = find_feature_values_declaration(decls, d.name@, 0);
    if k < decls.len() {
        let updated = decls.update(k, d);
        assert forall|i: int, j: int| 0 <= i < j < updated.len() implies #[trigger] updated[i].name@
            != #[trigger] updated[j].name@ by {
            if i != k && j != k {
                assert(updated[i] == decls[i] && updated[j] == decls[j]);
            } else if i == k {
                assert(updated[j] == decls[j]);
                assert(decls[k].name@ == d.name@);
            } else {
                assert(updated[i] == decls[i]);
                assert(decls[k].name@ == d.name@);
            }
        }
    } else {
        let pushed = decls.push(d);
        assert forall|i: int, j: int| 0 <= i < j < pushed.len() implies #[trigger] pushed[i].name@
            != #[trigger] pushed[j].name@ by {
            if j < decls.len() {
                assert(pushed[i] == decls[i] && pushed[j] == decls[j]);
            } else {
                assert(pushed[i] == decls[i] && pushed[j] == d);
            }
        }
    }
}

/// Parses one feature-value declaration list.
pub struct FontFeatureValuesDeclarationsParser;

impl FontFeatureValuesDeclarationsParser {
    /// Updates in place where the same identifier exists, otherwise pushes:
    /// the last write wins, the first position is kept.
    #[verifier::loop_isolation(false)]
    pub fn update_or_push(
        declarations: &mut Vec<FontFeatureValuesDeclaration>,
        newDeclaration: FontFeatureValuesDeclaration,
    )
        ensures
            ({
                let k = find_feature_values_declaration(
                    old(declarations)@,
                    newDeclaration.name@,
                    0,
                );
                &&& k < old(declarations)@.len() ==> final(declarations)@ == old(
                    declarations,
                )@.update(k, newDeclaration)
                &&& k == old(declarations)@.len() ==> final(declarations)@ == old(
                    declarations,
                )@.push(newDeclaration)
            }),
    {
        proof {
            lemma_find_feature_values_declaration(declarations@, newDeclaration.name@, 0);
        }
        let mut i: usize = 0;
        while i < declarations.len()
            invariant
                0 <= i <= declarations@.len(),
                declarations@ == old(declarations)@,
                find_feature_values_declaration(declarations@, newDeclaration.name@, i as int)
                    == find_feature_values_declaration(declarations@, newDeclaration.name@, 0),
            decreases declarations@.len() - i,
        {
            if declarations[i].name.eq(&newDeclaration.name) {
                declarations[i] = newDeclaration;
                return ;
            }
            i = i + 1;
        }
        declarations.push(newDeclaration);
    }

    /// One declaration's value: one or more non-negative integers.
    #[verifier::loop_isolation(false)]
    pub fn parse_value(context: &ParserContext, input: &mut TokenStream) -> (r: Result<
        Vec<u32>,
        PreciseParseError,
    >)
        requires
            old(input).wf(),
        ensures
            final(input).wf(),
            final(input).tokens@ == old(input).tokens@,
            old(input).pos <= final(input).pos,
            r matches Ok(v) ==> v@.len() >= 1 && final(input).pos > old(input).pos,
            r matches Ok(v) ==> v@ == integer_run_values(old(input).tokens@, old(input).pos as int),
            ({
                let j = old(input).spec_next_pos();
                let toks = old(input).tokens@;
                let k = crate::tokens::next_non_ws(toks, j + 1);
                j < toks.len() ==> (toks[j] matches CssToken::Number { int_value: Some(i), .. }
                    ==> (i >= 0 && (k == toks.len() || !(toks[k] is Number)) ==> (r matches Ok(v)
                    && v@ =~= seq![i as u32] && final(input).pos == j + 1)))
            }),
    {
        let mut values: Vec<u32> = Vec::new();
        loop
            invariant
                input.wf(),
                input.tokens@ == old(input).tokens@,
                old(input).pos <= input.pos,
                values@.len() > 0 ==> old(input).pos < input.pos,
                values@.len() == 0 ==> input.pos == old(input).pos,
                values@ + integer_run_values(input.tokens@, input.pos as int)
                    == integer_run_values(old(input).tokens@, old(input).pos as int),
                ({
                    let j = old(input).spec_next_pos();
                    let toks = old(input).tokens@;
                    let k = crate::tokens::next_non_ws(toks, j + 1);
                    j < toks.len() ==> (toks[j] matches CssToken::Number {
                        int_value: Some(i),
                        ..
                    } ==> (i >= 0 && (k == toks.len() || !(toks[k] is Number)) ==> values@.len()
                        == 0))
                }),
            decreases input.tokens@.len() - input.pos,
        {
            proof {
                lemma_integer_run_skips_ws(input.tokens@, input.pos as int);
            }
            match input.next() {
                Ok(CssToken::Number { units, int_value: Some(i) }) => {
                    if i < 0 {
                        return Err(
                            input.new_custom_error(
                                CustomParseError::UnsignedIntegersCanNotBeNegative(i),
                            ),
                        );
                    }
                    values.push(i as u32);
                },
                Ok(CssToken::Number { units, int_value: None }) => {
                    return Err(
                        input.new_custom_error(
                            CustomParseError::UnsignedIntegersCanNotBeFloats(units),
                        ),
                    );
                },
                Ok(t) => {
                    return Err(input.new_unexpected_token_error(t));
                },
                Err(e) => {
                    return Err(e);
                },
            }
            match input.peek() {
                Some(CssToken::Number { .. }) => {},
                _ => {
                    proof {
                        lemma_integer_run_skips_ws(input.tokens@, input.pos as int);
                    }
                    return Ok(values);
                },
            }
        }
    }

    /// Parses one feature-value block through its closing brace into the
    /// given declaration list.
    #[verifier::loop_isolation(false)]
    pub fn parseBlock(
        input: &mut TokenStream,
        context: &ParserContext,
        declarations: &mut Vec<FontFeatureValuesDeclaration>,
    ) -> (r: Result<(), PreciseParseError>)
        requires
            old(input).wf(),
            feature_values_have_unique_names(old(declarations)@),
        ensures
            final(input).wf(),
            final(input).tokens@ == old(input).tokens@,
            old(input).pos <= final(input).pos,
            feature_values_have_unique_names(final(declarations)@),
            final(declarations)@.len() >= old(declarations)@.len(),
            forall|i: int|
                0 <= i < old(declarations)@.len() ==> #[trigger] final(declarations)@[i].name@
                    == old(declarations)@[i].name@,
            ({
                let j = old(input).spec_next_pos();
                let toks = old(input).tokens@;
                &&& j == toks.len() ==> (r is Ok && final(declarations)@ == old(declarations)@)
                &&& j < toks.len() && toks[j] is CloseCurlyBracket ==> (r is Ok && final(declarations)@ == old(declarations)@ && final(input).pos == j + 1)
            }),
            ({
                let j = old(input).spec_next_pos();
                let toks = old(input).tokens@;
                let k = crate::tokens::next_non_ws(toks, j + 1);
                let m = crate::tokens::next_non_ws(toks, k + 1);
                let w = crate::tokens::next_non_ws(toks, m + 1);
                j < toks.len() ==> (toks[j] matches CssToken::Ident(nm) ==> (k < toks.len()
                    && toks[k] is Colon && m < toks.len() ==> (toks[m] matches CssToken::Number {
                    int_value: Some(i),
                    ..
                } ==> (i >= 0 && w < toks.len() && toks[w] is CloseCurlyBracket ==> ({
                    let fd = find_feature_values_declaration(old(declarations)@, nm@, 0);
                    &&& r is Ok
                    &&& final(input).pos == w + 1
                    &&& fd < old(declarations)@.len() ==> (final(declarations)@.len() == old(
                        declarations,
                    )@.len() && final(declarations)@[fd].name@ == nm@
                        && final(declarations)@[fd].value@ =~= seq![i as u32] && (forall|t: int|
                        0 <= t < old(declarations)@.len() && t != fd
                            ==> #[trigger] final(declarations)@[t] == old(declarations)@[t]))
                    &&& fd == old(declarations)@.len() ==> (final(declarations)@.len() == old(
                        declarations,
                    )@.len() + 1 && final(declarations)@[fd].name@ == nm@
                        && final(declarations)@[fd].value@ =~= seq![i as u32] && (forall|t: int|
                        0 <= t < old(declarations)@.len()
                            ==> #[trigger] final(declarations)@[t] == old(declarations)@[t]))
                })))))
            }),
    {
        loop
            invariant
                input.wf(),
                input.tokens@ == old(input).tokens@,
                old(input).pos <= input.pos,
                feature_values_have_unique_names(declarations@),
                declarations@.len() >= old(declarations)@.len(),
                forall|i: int|
                    0 <= i < old(declarations)@.len() ==> #[trigger] declarations@[i].name@
                        == old(declarations)@[i].name@,
                ({
                    let j = old(input).spec_next_pos();
                    let toks = old(input).tokens@;
                    (j == toks.len() || (j < toks.len() && toks[j] is CloseCurlyBracket))
                        ==> input.pos == old(input).pos && declarations@ == old(declarations)@
                }),
                ({
                    let j = old(input).spec_next_pos();
                    let toks = old(input).tokens@;
                    let k = crate::tokens::next_non_ws(toks, j + 1);
                    let m = crate::tokens::next_non_ws(toks, k + 1);
                    let w = crate::tokens::next_non_ws(toks, m + 1);
                    j < toks.len() ==> (toks[j] matches CssToken::Ident(nm) ==> (k < toks.len()
                        && toks[k] is Colon && m < toks.len() ==> (toks[m]
                        matches CssToken::Number { int_value: Some(i), .. } ==> (i >= 0 && w
                        < toks.len() && toks[w] is CloseCurlyBracket ==> ({
                        let fd = find_feature_values_declaration(old(declarations)@, nm@, 0);
                        ||| (declarations@ == old(declarations)@ && input.pos == old(input).pos)
                        ||| ({
                            &&& input.pos == m + 1
                            &&& fd < old(declarations)@.len() ==> (declarations@.len() == old(
                                declarations,
                            )@.len() && declarations@[fd].name@ == nm@
                                && declarations@[fd].value@ =~= seq![i as u32] && (forall|t: int|
                                0 <= t < old(declarations)@.len() && t != fd
                                    ==> #[trigger] declarations@[t] == old(declarations)@[t]))
                            &&& fd == old(declarations)@.len() ==> (declarations@.len() == old(
                                declarations,
                            )@.len() + 1 && declarations@[fd].name@ == nm@
                                && declarations@[fd].value@ =~= seq![i as u32] && (forall|t: int|
                                0 <= t < old(declarations)@.len()
                                    ==> #[trigger] declarations@[t] == old(declarations)@[t]))
                        })
                    })))))
                }),
            decreases input.tokens@.len() - input.pos,
        {
            input.skip_whitespace();
            match input.peek() {
                None => {
                    return Ok(());
                },
                Some(CssToken::CloseCurlyBracket) => {
                    let _ = match input.next() {
                        Ok(t) => t,
                        Err(e) => {
                            return Err(e);
                        },
                    };
                    return Ok(());
                },
                Some(CssToken::Semicolon) => {
                    let _ = match input.next() {
                        Ok(t) => t,
                        Err(e) => {
                            return Err(e);
                        },
                    };
                },
                _ => {
                    let name = match input.expect_ident() {
                        Ok(n) => n,
                        Err(e) => {
                            return Err(e);
                        },
                    };
                    match input.next() {
                        Ok(CssToken::Colon) => {},
                        Ok(t) => {
                            return Err(input.new_unexpected_token_error(t));
                        },
                        Err(e) => {
                            return Err(e);
                        },
                    }
                    let value = match Self::parse_value(context, input) {
                        Ok(v) => v,
                        Err(e) => {
                            return Err(e);
                        },
                    };
                    let declaration = FontFeatureValuesDeclaration { name, value };
                    proof {
                        lemma_feature_values_update_keeps_unique_names(
                            declarations@,
                            declaration,
                        );
                    }
                    Self::update_or_push(declarations, declaration);
                },
            }
        }
    }
}

} // verus!
