//! The deferred expression machinery behind every numeric property value:
//! `calc()` trees, `attr()` and `var()` references, and the function-keyword
//! dispatch they share.
//!
//! Expression trees are built bottom-up in one parse pass and shared
//! reference-counted thereafter; nothing mutates a tree once built.

use std::rc::Rc;
use vstd::prelude::*;
use crate::ascii::ascii_case_insensitive_eq;
use crate::conversions::CssVariableConversion;
use crate::ascii::eq_ignore_ascii_case_seq;
use crate::context::ParserContext;
use crate::errors::CustomParseError;
use crate::errors::ParseErrorKind;
use crate::errors::PreciseParseError;
use crate::numbers::CssNumber;
use crate::numbers::CssUnsignedNumber;
use crate::tokens::CssToken;
use crate::tokens::TokenStream;
use crate::units::PercentageUnit;

verus! {

/// A `calc()` function value: a shared, immutable expression tree.
#[derive(Debug, PartialEq)]
pub struct CalcFunction<U>(pub Rc<CalcExpression<U>>);

/// An `attr()` function value.
#[derive(Debug, PartialEq)]
pub struct AttrFunction(pub Rc<AttrExpression>);

/// A `var()` function value.
#[derive(Debug, PartialEq)]
pub struct VarFunction(pub Rc<VarExpression>);

/// The parse-time representation of a numeric property value: exactly one
/// variant is chosen by the tokens consumed.
#[derive(Debug, PartialEq)]
pub enum CalculablePropertyValue<U> {
    Constant(U),
    Percentage(PercentageUnit<CssUnsignedNumber>),
    Calc(CalcFunction<U>),
    Attr(AttrFunction),
    Var(VarFunction),
}

/// A node of a `calc()` arithmetic tree.
#[derive(Debug, PartialEq)]
pub enum CalcExpression<U> {
    /// A bare (dimensionless) number inside `calc()`.
    Number(CssUnsignedNumber),
    /// A leaf value: a constant, percentage or nested function value.
    Value(Box<CalculablePropertyValue<U>>),
    Sum(Box<CalcExpression<U>>, Box<CalcExpression<U>>),
    Difference(Box<CalcExpression<U>>, Box<CalcExpression<U>>),
    Product(Box<CalcExpression<U>>, Box<CalcExpression<U>>),
    Quotient(Box<CalcExpression<U>>, Box<CalcExpression<U>>),
}

/// What one leaf parse step inside `calc()` yields: a finished value or a
/// sub-expression node.
#[derive(Debug, PartialEq)]
pub enum CalcParseItem<U> {
    Value(CalculablePropertyValue<U>),
    SubExpression(CalcExpression<U>),
}

/// An `attr()` expression: the attribute read, an optional type-or-unit
/// keyword, and an optional raw fallback.
#[derive(Debug, PartialEq)]
pub struct AttrExpression {
    pub attribute: String,
    pub type_or_unit: Option<String>,
    pub fallback: Option<Vec<CssToken>>,
}

/// A `var()` expression: the custom property named (with its leading double
/// dash) and an optional raw fallback.
#[derive(Debug, PartialEq)]
pub struct VarExpression {
    pub name: String,
    pub fallback: Option<Vec<CssToken>>,
}

/// The dispatch law every value grammar obeys once a function keyword has
/// been read: the three known keywords choose their variant, anything else
/// is rejected by name.
pub open spec fn function_dispatch_holds<U>(
    name: Seq<char>,
    r: Result<CalculablePropertyValue<U>, PreciseParseError>,
) -> bool {
    &&& eq_ignore_ascii_case_seq(name, "calc"@) ==> (r matches Ok(v) ==> v is Calc)
    &&& !eq_ignore_ascii_case_seq(name, "calc"@) && eq_ignore_ascii_case_seq(name, "attr"@) ==> (
    r matches Ok(v) ==> v is Attr)
    &&& !eq_ignore_ascii_case_seq(name, "calc"@) && !eq_ignore_ascii_case_seq(name, "attr"@)
        && eq_ignore_ascii_case_seq(name, "var"@) ==> (r matches Ok(v) ==> v is Var)
    &&& !eq_ignore_ascii_case_seq(name, "calc"@) && !eq_ignore_ascii_case_seq(name, "attr"@)
        && !eq_ignore_ascii_case_seq(name, "var"@) ==> (r matches Err(e) && e.kind
        matches ParseErrorKind::Custom(ce) && ce
        matches CustomParseError::UnknownFunctionInValueExpression(s) && s@ == name)
}

/// The rejection half of the dispatch law, usable in either expression
/// context: a function keyword that is none of the three known ones fails
/// with its name.
pub open spec fn unknown_function_rejected<T>(
    name: Seq<char>,
    r: Result<T, PreciseParseError>,
) -> bool {
    !eq_ignore_ascii_case_seq(name, "calc"@) && !eq_ignore_ascii_case_seq(name, "attr"@)
        && !eq_ignore_ascii_case_seq(name, "var"@) ==> (r matches Err(e) && e.kind
        matches ParseErrorKind::Custom(ce) && ce
        matches CustomParseError::UnknownFunctionInValueExpression(s) && s@ == name)
}

/// A numeric unit type: what its values look like as leaves of the two
/// expression grammars, and how a raw custom-property value re-parses into
/// it.
pub trait Unit: Sized {
    /// Whether the unit carries a dimension; only dimensioned units accept
    /// bare percentages outside `calc()`.
    spec fn spec_has_dimension() -> bool;

    /// What a single leaf token yields outside `calc()`: `None` where the
    /// token is no leaf of this unit's grammar.
    spec fn spec_leaf_outside(t: CssToken, at: int) -> Option<
        Result<CalculablePropertyValue<Self>, PreciseParseError>,
    >;

    /// What a single leaf token yields inside `calc()`.
    spec fn spec_leaf_inside(t: CssToken, at: int) -> Option<
        Result<CalcParseItem<Self>, PreciseParseError>,
    >;

    /// The value a raw custom-property token sequence re-parses to: the
    /// outside-`calc` leaf grammar, required to consume everything, with
    /// `None` rather than an error on any failure.
    spec fn spec_from_raw_css(tokens: Seq<CssToken>) -> Option<Self>;

    /// A function keyword or parenthesis is never a leaf of a unit
    /// grammar: the expression parser alone handles those.
    proof fn lemma_function_token_not_leaf(t: CssToken, at: int)
        requires
            t is Function || t is ParenthesisBlock,
        ensures
            Self::spec_leaf_outside(t, at) is None,
            Self::spec_leaf_inside(t, at) is None,
    ;

    fn has_dimension() -> (r: bool)
        ensures
            r == Self::spec_has_dimension(),
    ;

    /// One leaf value of this unit type outside `calc()`; function keywords
    /// are the shared dispatcher's business.
    fn parse_leaf_outside_calc_function(context: &ParserContext, input: &mut TokenStream) -> (r:
        Result<CalculablePropertyValue<Self>, PreciseParseError>)
        requires
            old(input).wf(),
        ensures
            final(input).wf(),
            final(input).tokens@ == old(input).tokens@,
            old(input).pos <= final(input).pos,
            r is Ok ==> final(input).pos > old(input).pos,
            ({
                let j = old(input).spec_next_pos();
                let toks = old(input).tokens@;
                &&& j < toks.len() ==> (Self::spec_leaf_outside(toks[j], j + 1) matches Some(res)
                    ==> r == res && final(input).pos == j + 1)
                &&& j < toks.len() && Self::spec_leaf_outside(toks[j], j + 1) is None ==> (
                r matches Err(e) && e.kind == ParseErrorKind::UnexpectedToken(toks[j]))
                &&& j == toks.len() ==> r is Err
            }),
        decreases input.tokens@.len() - input.pos, 0int,
    ;

    /// One leaf of this unit type inside `calc()`; parentheses and nested
    /// functions are the expression parser's own business.
    fn parse_one_inside_calc_function(context: &ParserContext, input: &mut TokenStream) -> (r:
        Result<CalcParseItem<Self>, PreciseParseError>)
        requires
            old(input).wf(),
        ensures
            final(input).wf(),
            final(input).tokens@ == old(input).tokens@,
            old(input).pos <= final(input).pos,
            r is Ok ==> final(input).pos > old(input).pos,
            ({
                let j = old(input).spec_next_pos();
                let toks = old(input).tokens@;
                &&& j < toks.len() ==> (Self::spec_leaf_inside(toks[j], j + 1) matches Some(res)
                    ==> r == res && final(input).pos == j + 1)
                &&& j < toks.len() && Self::spec_leaf_inside(toks[j], j + 1) is None ==> (
                r matches Err(e) && e.kind == ParseErrorKind::UnexpectedToken(toks[j]))
                &&& j == toks.len() ==> r is Err
            }),
        decreases input.tokens@.len() - input.pos, 0int,
    ;

    /// Re-parses a custom property's raw value as a single value of this
    /// unit, totally: trailing garbage or any failure degrades to `None`.
    fn from_raw_css_for_var_expression_evaluation(
        value: &Vec<CssToken>,
        is_not_in_page_rule: bool,
    ) -> (r: Option<Self>)
        ensures
            r == Self::spec_from_raw_css(value@),
    ;
}

/// Dispatches a just-read function keyword to its value grammar: `calc`,
/// `attr` and `var` are known, anything else fails by name.
pub(crate) fn parse_function_value<U: Unit>(
    context: &ParserContext,
    input: &mut TokenStream,
    name: String,
) -> (r: Result<CalculablePropertyValue<U>, PreciseParseError>)
    requires
        old(input).wf(),
    ensures
        final(input).wf(),
        final(input).tokens@ == old(input).tokens@,
        old(input).pos <= final(input).pos,
        function_dispatch_holds::<U>(name@, r),
    decreases input.tokens@.len() - input.pos, 4int,
{
    if ascii_case_insensitive_eq(name.as_str(), "calc") {
        match CalcExpression::<U>::parse(context, input) {
            Ok(e) => Ok(CalculablePropertyValue::Calc(CalcFunction(Rc::new(e)))),
            Err(e) => Err(e),
        }
    } else if ascii_case_insensitive_eq(name.as_str(), "attr") {
        match AttrExpression::parse(context, input) {
            Ok(a) => Ok(CalculablePropertyValue::Attr(AttrFunction(Rc::new(a)))),
            Err(e) => Err(e),
        }
    } else if ascii_case_insensitive_eq(name.as_str(), "var") {
        match VarExpression::parse(context, input) {
            Ok(v) => Ok(CalculablePropertyValue::Var(VarFunction(Rc::new(v)))),
            Err(e) => Err(e),
        }
    } else {
        Err(input.new_custom_error(CustomParseError::UnknownFunctionInValueExpression(name)))
    }
}

impl<U: Unit> CalcExpression<U> {
    /// Parses a `calc()` arithmetic expression up to and including the
    /// closing parenthesis, products binding tighter than sums.
    #[verifier::loop_isolation(false)]
    pub fn parse(context: &ParserContext, input: &mut TokenStream) -> (r: Result<
        CalcExpression<U>,
        PreciseParseError,
    >)
        requires
            old(input).wf(),
        ensures
            final(input).wf(),
            final(input).tokens@ == old(input).tokens@,
            old(input).pos <= final(input).pos,
            r is Ok ==> final(input).pos > old(input).pos,
            ({
                let j = old(input).spec_next_pos();
                let toks = old(input).tokens@;
                j < toks.len() ==> (toks[j] matches CssToken::Function(name)
                    ==> unknown_function_rejected(name@, r))
            }),
            ({
                let j = old(input).spec_next_pos();
                let toks = old(input).tokens@;
                let k = crate::tokens::next_non_ws(toks, j + 1);
                j < toks.len() ==> (U::spec_leaf_inside(toks[j], j + 1) matches Some(leaf) ==> (
                leaf matches Ok(item) ==> (k < toks.len() && toks[k] is CloseParenthesis ==> (
                r matches Ok(e) && final(input).pos == k + 1 && (item
                    matches CalcParseItem::Value(v) ==> (e matches CalcExpression::Value(b) && *b
                    == v)) && (item matches CalcParseItem::SubExpression(x) ==> e == x)))))
            }),
        decreases input.tokens@.len() - input.pos, 3int,
    {
        let mut acc = match Self::parse_product(context, input) {
            Ok(e) => e,
            Err(e) => {
                return Err(e);
            },
        };
        loop
            invariant
                input.wf(),
                input.tokens@ == old(input).tokens@,
                old(input).pos < input.pos,
                ({
                    let j = old(input).spec_next_pos();
                    let toks = old(input).tokens@;
                    let k = crate::tokens::next_non_ws(toks, j + 1);
                    j < toks.len() ==> (U::spec_leaf_inside(toks[j], j + 1) matches Some(leaf)
                        ==> (leaf matches Ok(item) ==> (k < toks.len() && toks[k]
                        is CloseParenthesis ==> (input.pos == j + 1 && (item
                        matches CalcParseItem::Value(v) ==> (acc matches CalcExpression::Value(b)
                        && *b == v)) && (item matches CalcParseItem::SubExpression(x) ==> acc
                        == x)))))
                }),
            decreases input.tokens@.len() - input.pos,
        {
            match input.next() {
                Ok(CssToken::Delim('+')) => {
                    let rhs = match Self::parse_product(context, input) {
                        Ok(e) => e,
                        Err(e) => {
                            return Err(e);
                        },
                    };
                    acc = CalcExpression::Sum(Box::new(acc), Box::new(rhs));
                },
                Ok(CssToken::Delim('-')) => {
                    let rhs = match Self::parse_product(context, input) {
                        Ok(e) => e,
                        Err(e) => {
                            return Err(e);
                        },
                    };
                    acc = CalcExpression::Difference(Box::new(acc), Box::new(rhs));
                },
                Ok(CssToken::CloseParenthesis) => {
                    return Ok(acc);
                },
                Ok(t) => {
                    return Err(input.new_unexpected_token_error(t));
                },
                Err(e) => {
                    return Err(e);
                },
            }
        }
    }

    #[verifier::loop_isolation(false)]
    fn parse_product(context: &ParserContext, input: &mut TokenStream) -> (r: Result<
        CalcExpression<U>,
        PreciseParseError,
    >)
        requires
            old(input).wf(),
        ensures
            final(input).wf(),
            final(input).tokens@ == old(input).tokens@,
            old(input).pos <= final(input).pos,
            r is Ok ==> final(input).pos > old(input).pos,
            ({
                let j = old(input).spec_next_pos();
                let toks = old(input).tokens@;
                j < toks.len() ==> (toks[j] matches CssToken::Function(name)
                    ==> unknown_function_rejected(name@, r))
            }),
            ({
                let j = old(input).spec_next_pos();
                let toks = old(input).tokens@;
                let k = crate::tokens::next_non_ws(toks, j + 1);
                j < toks.len() ==> (U::spec_leaf_inside(toks[j], j + 1) matches Some(leaf) ==> (
                leaf matches Ok(item) ==> (k < toks.len() && toks[k] is CloseParenthesis ==> (
                r matches Ok(e) && final(input).pos == j + 1 && (item
                    matches CalcParseItem::Value(v) ==> (e matches CalcExpression::Value(b) && *b
                    == v)) && (item matches CalcParseItem::SubExpression(x) ==> e == x)))))
            }),
        decreases input.tokens@.len() - input.pos, 2int,
    {
        let mut acc = match Self::parse_atom(context, input) {
            Ok(e) => e,
            Err(e) => {
                return Err(e);
            },
        };
        loop
            invariant
                input.wf(),
                input.tokens@ == old(input).tokens@,
                old(input).pos < input.pos,
                ({
                    let j = old(input).spec_next_pos();
                    let toks = old(input).tokens@;
                    let k = crate::tokens::next_non_ws(toks, j + 1);
                    j < toks.len() ==> (U::spec_leaf_inside(toks[j], j + 1) matches Some(leaf)
                        ==> (leaf matches Ok(item) ==> (k < toks.len() && toks[k]
                        is CloseParenthesis ==> (input.pos == j + 1 && (item
                        matches CalcParseItem::Value(v) ==> (acc matches CalcExpression::Value(b)
                        && *b == v)) && (item matches CalcParseItem::SubExpression(x) ==> acc
                        == x)))))
                }),
            decreases input.tokens@.len() - input.pos,
        {
            match input.peek() {
                Some(CssToken::Delim('*')) => {
                    let _ = match input.next() {
                        Ok(t) => t,
                        Err(e) => {
                            return Err(e);
                        },
                    };
                    let rhs = match Self::parse_atom(context, input) {
                        Ok(e) => e,
                        Err(e) => {
                            return Err(e);
                        },
                    };
                    acc = CalcExpression::Product(Box::new(acc), Box::new(rhs));
                },
                Some(CssToken::Delim('/')) => {
                    let _ = match input.next() {
                        Ok(t) => t,
                        Err(e) => {
                            return Err(e);
                        },
                    };
                    let rhs = match Self::parse_atom(context, input) {
                        Ok(e) => e,
                        Err(e) => {
                            return Err(e);
                        },
                    };
                    acc = CalcExpression::Quotient(Box::new(acc), Box::new(rhs));
                },
                _ => {
                    return Ok(acc);
                },
            }
        }
    }

    fn parse_atom(context: &ParserContext, input: &mut TokenStream) -> (r: Result<
        CalcExpression<U>,
        PreciseParseError,
    >)
        requires
            old(input).wf(),
        ensures
            final(input).wf(),
            final(input).tokens@ == old(input).tokens@,
            old(input).pos <= final(input).pos,
            r is Ok ==> final(input).pos > old(input).pos,
            ({
                let j = old(input).spec_next_pos();
                let toks = old(input).tokens@;
                j < toks.len() ==> (toks[j] matches CssToken::Function(name)
                    ==> unknown_function_rejected(name@, r))
            }),
            ({
                let j = old(input).spec_next_pos();
                let toks = old(input).tokens@;
                j < toks.len() ==> (U::spec_leaf_inside(toks[j], j + 1) matches Some(leaf) ==> (
                leaf matches Ok(item) ==> (r matches Ok(e) && final(input).pos == j + 1 && (item
                    matches CalcParseItem::Value(v) ==> (e matches CalcExpression::Value(b) && *b
                    == v)) && (item matches CalcParseItem::SubExpression(x) ==> e == x))))
            }),
        decreases input.tokens@.len() - input.pos, 1int,
    {
        proof {
            let j = old(input).spec_next_pos();
            let toks = old(input).tokens@;
            if j < toks.len() && (toks[j] is Function || toks[j] is ParenthesisBlock) {
                U::lemma_function_token_not_leaf(toks[j], j + 1);
            }
        }
        match input.peek() {
            Some(CssToken::ParenthesisBlock) => {
                let _ = match input.next() {
                    Ok(t) => t,
                    Err(e) => {
                        return Err(e);
                    },
                };
                Self::parse(context, input)
            },
            Some(CssToken::Function(_)) => {
                let name = match input.next() {
                    Ok(CssToken::Function(name)) => name,
                    Ok(t) => {
                        return Err(input.new_unexpected_token_error(t));
                    },
                    Err(e) => {
                        return Err(e);
                    },
                };
                match parse_function_value::<U>(context, input, name) {
                    Ok(v) => Ok(CalcExpression::Value(Box::new(v))),
                    Err(e) => Err(e),
                }
            },
            _ => {
                match U::parse_one_inside_calc_function(context, input) {
                    Ok(CalcParseItem::Value(v)) => Ok(CalcExpression::Value(Box::new(v))),
                    Ok(CalcParseItem::SubExpression(e)) => Ok(e),
                    Err(e) => Err(e),
                }
            },
        }
    }
}

impl AttrExpression {
    /// Parses the contents of `attr(...)` after its keyword: an attribute
    /// name, an optional type-or-unit keyword, an optional comma-separated
    /// raw fallback, and the closing parenthesis.
    pub fn parse(context: &ParserContext, input: &mut TokenStream) -> (r: Result<
        AttrExpression,
        PreciseParseError,
    >)
        requires
            old(input).wf(),
        ensures
            final(input).wf(),
            final(input).tokens@ == old(input).tokens@,
            old(input).pos <= final(input).pos,
            r is Ok ==> final(input).pos > old(input).pos,
            ({
                let j = old(input).spec_next_pos();
                let toks = old(input).tokens@;
                let k = crate::tokens::next_non_ws(toks, j + 1);
                &&& j < toks.len() ==> (toks[j] matches CssToken::Ident(a) ==> {
                    &&& (r matches Ok(v) ==> v.attribute@ == a@)
                    &&& k < toks.len() && toks[k] is CloseParenthesis ==> (r matches Ok(v)
                        && v.attribute@ == a@ && v.type_or_unit is None && v.fallback is None)
                })
                &&& j < toks.len() && !(toks[j] is Ident) ==> r is Err
                &&& j == toks.len() ==> r is Err
            }),
    {
        let attribute = match input.expect_ident() {
            Ok(a) => a,
            Err(e) => {
                return Err(e);
            },
        };
        let type_or_unit = match input.peek() {
            Some(CssToken::Ident(t)) => {
                let _ = match input.next() {
                    Ok(tok) => tok,
                    Err(e) => {
                        return Err(e);
                    },
                };
                Some(t)
            },
            _ => None,
        };
        let fallback = match input.peek() {
            Some(CssToken::Comma) => {
                let _ = match input.next() {
                    Ok(tok) => tok,
                    Err(e) => {
                        return Err(e);
                    },
                };
                Some(input.collect_until_block_end())
            },
            _ => None,
        };
        match input.next() {
            Ok(CssToken::CloseParenthesis) => Ok(AttrExpression { attribute, type_or_unit, fallback }),
            Ok(t) => Err(input.new_unexpected_token_error(t)),
            Err(e) => Err(e),
        }
    }
}

impl VarExpression {
    /// The well-formedness every parsed `var()` has: the custom property
    /// name carries its leading double dash.
    pub open spec fn wf(self) -> bool {
        self.name@.len() >= 2 && self.name@[0] == '-' && self.name@[1] == '-'
    }

    /// The name looked up in the variable table: without the leading double
    /// dash.
    pub open spec fn spec_lookup_name(self) -> Seq<char> {
        self.name@.subrange(2, self.name@.len() as int)
    }

    /// Parses the contents of `var(...)` after its keyword: a custom
    /// property name that must start with two dashes, an optional raw
    /// fallback, and the closing parenthesis.
    pub fn parse(context: &ParserContext, input: &mut TokenStream) -> (r: Result<
        VarExpression,
        PreciseParseError,
    >)
        requires
            old(input).wf(),
        ensures
            final(input).wf(),
            final(input).tokens@ == old(input).tokens@,
            old(input).pos <= final(input).pos,
            r matches Ok(v) ==> final(input).pos > old(input).pos && v.wf(),
            ({
                let j = old(input).spec_next_pos();
                let toks = old(input).tokens@;
                let k = crate::tokens::next_non_ws(toks, j + 1);
                &&& j < toks.len() ==> (toks[j] matches CssToken::Ident(s) ==> (!(s@.len() >= 2
                    && s@[0] == '-' && s@[1] == '-') ==> (r matches Err(e) && e.kind
                    matches ParseErrorKind::Custom(ce) && ce
                    matches CustomParseError::CssVariablesInVarExpressionsMustStartWithTwoDashes(n)
                    && n@ == s@)))
                &&& j < toks.len() ==> (toks[j] matches CssToken::Ident(s) ==> ((s@.len() >= 2
                    && s@[0] == '-' && s@[1] == '-') ==> {
                    &&& (r matches Ok(v) ==> v.name@ == s@)
                    &&& k < toks.len() && toks[k] is CloseParenthesis ==> (r matches Ok(v)
                        && v.name@ == s@ && v.fallback is None)
                    &&& k < toks.len() && toks[k] is Comma ==> (r matches Ok(v) ==> v.fallback
                        is Some)
                }))
            }),
    {
        let name = match input.expect_ident() {
            Ok(n) => n,
            Err(e) => {
                return Err(e);
            },
        };
        if !crate::ascii::str_starts_with_double_dash(name.as_str()) {
            return Err(
                input.new_custom_error(
                    CustomParseError::CssVariablesInVarExpressionsMustStartWithTwoDashes(name),
                ),
            );
        }
        let fallback = match input.peek() {
            Some(CssToken::Comma) => {
                let _ = match input.next() {
                    Ok(tok) => tok,
                    Err(e) => {
                        return Err(e);
                    },
                };
                Some(input.collect_until_block_end())
            },
            _ => None,
        };
        match input.next() {
            Ok(CssToken::CloseParenthesis) => Ok(VarExpression { name, fallback }),
            Ok(t) => Err(input.new_unexpected_token_error(t)),
            Err(e) => Err(e),
        }
    }

    /// Evaluates this `var()` against a variable table: the variable's raw
    /// value re-parses as a single value, the fallback standing in where the
    /// variable is unset, and `None` where both fail. Total: a malformed
    /// value degrades silently.
    pub fn evaluate<U: Unit, C: CssVariableConversion>(
        &self,
        conversion: &C,
        is_not_in_page_rule: bool,
    ) -> (r: Option<U>)
        requires
            self.wf(),
        ensures
            conversion.spec_css_variable_value(self.spec_lookup_name()) matches Some(raw) ==> r
                == U::spec_from_raw_css(raw),
            conversion.spec_css_variable_value(self.spec_lookup_name()) is None ==> (
            match self.fallback {
                Some(fb) => r == U::spec_from_raw_css(fb@),
                None => r is None,
            }),
    {
        let len = self.name.as_str().unicode_len();
        let lookup_name = self.name.as_str().substring_char(2, len);
        match conversion.cssVariableValue(lookup_name) {
            Some(raw) => U::from_raw_css_for_var_expression_evaluation(&raw, is_not_in_page_rule),
            None => {
                match &self.fallback {
                    Some(fb) => U::from_raw_css_for_var_expression_evaluation(
                        fb,
                        is_not_in_page_rule,
                    ),
                    None => None,
                }
            },
        }
    }
}

/// Copies a token sequence, as re-parsing a raw value needs its own stream.
pub(crate) fn clone_tokens(value: &Vec<CssToken>) -> (r: Vec<CssToken>)
    ensures
        r@ == value@,
{
    let copy = value.clone();
    proof {
        assert forall|i: int| 0 <= i < value@.len() implies copy@[i] == value@[i] by {
            assert(vstd::pervasive::cloned::<CssToken>(value@[i], copy@[i]));
        }
        assert(copy@ =~= value@);
    }
    copy
}

/// One value of a unit type parsed outside any `calc()` context: a leaf of
/// the unit's own grammar, or a function keyword dispatched to `calc`,
/// `attr` or `var`.
pub fn parse_one_value_outside_calc_function<U: Unit>(
    context: &ParserContext,
    input: &mut TokenStream,
) -> (r: Result<CalculablePropertyValue<U>, PreciseParseError>)
    requires
        old(input).wf(),
    ensures
        final(input).wf(),
        final(input).tokens@ == old(input).tokens@,
        old(input).pos <= final(input).pos,
        ({
            let j = old(input).spec_next_pos();
            let toks = old(input).tokens@;
            &&& j < toks.len() ==> (U::spec_leaf_outside(toks[j], j + 1) matches Some(res) ==> r
                == res && final(input).pos == j + 1)
            &&& j < toks.len() && U::spec_leaf_outside(toks[j], j + 1) is None && !(toks[j]
                is Function) ==> (r matches Err(e) && e.kind == ParseErrorKind::UnexpectedToken(
                toks[j],
            ))
            &&& j < toks.len() ==> (toks[j] matches CssToken::Function(name)
                ==> function_dispatch_holds::<U>(name@, r))
            &&& j == toks.len() ==> r is Err
        }),
{
    proof {
        let j = old(input).spec_next_pos();
        let toks = old(input).tokens@;
        if j < toks.len() && toks[j] is Function {
            U::lemma_function_token_not_leaf(toks[j], j + 1);
        }
    }
    match input.peek() {
        Some(CssToken::Function(_)) => {
            let name = match input.next() {
                Ok(CssToken::Function(name)) => name,
                Ok(t) => {
                    return Err(input.new_unexpected_token_error(t));
                },
                Err(e) => {
                    return Err(e);
                },
            };
            parse_function_value::<U>(context, input, name)
        },
        _ => U::parse_leaf_outside_calc_function(context, input),
    }
}

impl CssUnsignedNumber {
    /// One dimensionless value: a bare number, or a `calc`/`attr`/`var`
    /// function value; a bare percentage is not accepted here.
    pub fn parse_one_outside_calc_function(context: &ParserContext, input: &mut TokenStream) -> (r:
        Result<CalculablePropertyValue<CssUnsignedNumber>, PreciseParseError>)
        requires
            old(input).wf(),
        ensures
            final(input).wf(),
            final(input).tokens@ == old(input).tokens@,
            old(input).pos <= final(input).pos,
            ({
                let j = old(input).spec_next_pos();
                let toks = old(input).tokens@;
                &&& j < toks.len() ==> (<CssUnsignedNumber as Unit>::spec_leaf_outside(
                    toks[j],
                    j + 1,
                ) matches Some(res) ==> r == res && final(input).pos == j + 1)
                &&& j < toks.len() && <CssUnsignedNumber as Unit>::spec_leaf_outside(toks[j], j + 1)
                    is None && !(toks[j] is Function) ==> (r matches Err(e) && e.kind
                    == ParseErrorKind::UnexpectedToken(toks[j]))
                &&& j < toks.len() ==> (toks[j] matches CssToken::Function(name)
                    ==> function_dispatch_holds::<CssUnsignedNumber>(name@, r))
                &&& j == toks.len() ==> r is Err
            }),
    {
        parse_one_value_outside_calc_function::<CssUnsignedNumber>(context, input)
    }
}

impl CssUnsignedNumber {
    /// The canonical dimension value of a dimensionless number is the
    /// number itself: resolution reads nothing from the conversion.
    pub fn to_canonical_dimension_value<Conversion: crate::conversions::FontRelativeLengthConversion<
        CssUnsignedNumber,
    > + crate::conversions::ViewportPercentageLengthConversion<CssUnsignedNumber>
        + crate::conversions::PercentageConversion<CssUnsignedNumber>>(
        &self,
        conversion: &Conversion,
    ) -> (r: CssUnsignedNumber)
        ensures
            r == *self,
    {
        *self
    }
}

impl Unit for CssUnsignedNumber {
    open spec fn spec_has_dimension() -> bool {
        false
    }

    open spec fn spec_leaf_outside(t: CssToken, at: int) -> Option<
        Result<CalculablePropertyValue<CssUnsignedNumber>, PreciseParseError>,
    > {
        match t {
            CssToken::Number { units, int_value } => Some(
                if <CssUnsignedNumber as CssNumber>::construction_allowed(units as int) {
                    Ok(CalculablePropertyValue::Constant(CssUnsignedNumber(units)))
                } else {
                    Err(
                        (PreciseParseError {
                            kind: ParseErrorKind::Custom(
                                CustomParseError::CouldNotParseCssUnsignedNumber(
                                    <CssUnsignedNumber as CssNumber>::construction_error(
                                        units as int,
                                    ),
                                    units,
                                ),
                            ),
                            at: at as usize,
                        }),
                    )
                },
            ),
            _ => None,
        }
    }

    open spec fn spec_leaf_inside(t: CssToken, at: int) -> Option<
        Result<CalcParseItem<CssUnsignedNumber>, PreciseParseError>,
    > {
        match t {
            CssToken::Number { units, int_value } => Some(
                if <CssUnsignedNumber as CssNumber>::construction_allowed(units as int) {
                    Ok(
                        CalcParseItem::Value(
                            CalculablePropertyValue::Constant(CssUnsignedNumber(units)),
                        ),
                    )
                } else {
                    Err(
                        (PreciseParseError {
                            kind: ParseErrorKind::Custom(
                                CustomParseError::CouldNotParseCssUnsignedNumber(
                                    <CssUnsignedNumber as CssNumber>::construction_error(
                                        units as int,
                                    ),
                                    units,
                                ),
                            ),
                            at: at as usize,
                        }),
                    )
                },
            ),
            CssToken::Percentage { unit_value_units } => Some(
                if <CssUnsignedNumber as CssNumber>::construction_allowed(unit_value_units as int) {
                    Ok(
                        CalcParseItem::Value(
                            CalculablePropertyValue::Percentage(
                                PercentageUnit(CssUnsignedNumber(unit_value_units)),
                            ),
                        ),
                    )
                } else {
                    Err(
                        (PreciseParseError {
                            kind: ParseErrorKind::Custom(
                                CustomParseError::CouldNotParseCssUnsignedNumber(
                                    <CssUnsignedNumber as CssNumber>::construction_error(
                                        unit_value_units as int,
                                    ),
                                    unit_value_units,
                                ),
                            ),
                            at: at as usize,
                        }),
                    )
                },
            ),
            _ => None,
        }
    }

    open spec fn spec_from_raw_css(tokens: Seq<CssToken>) -> Option<CssUnsignedNumber> {
        let j = crate::tokens::next_non_ws(tokens, 0);
        if j < tokens.len() {
            match tokens[j] {
                CssToken::Number { units, int_value } => {
                    if <CssUnsignedNumber as CssNumber>::construction_allowed(units as int)
                        && crate::tokens::next_non_ws(tokens, j + 1) == tokens.len() {
                        Some(CssUnsignedNumber(units))
                    } else {
                        None
                    }
                },
                _ => None,
            }
        } else {
            None
        }
    }

    proof fn lemma_function_token_not_leaf(t: CssToken, at: int) {
    }

    fn has_dimension() -> (r: bool) {
        false
    }

    fn parse_leaf_outside_calc_function(context: &ParserContext, input: &mut TokenStream) -> (r:
        Result<CalculablePropertyValue<CssUnsignedNumber>, PreciseParseError>) {
        match input.next() {
            Ok(CssToken::Number { units, int_value }) => {
                match <CssUnsignedNumber as CssNumber>::new(units) {
                    Ok(constant) => Ok(CalculablePropertyValue::Constant(constant)),
                    Err(conversion_error) => Err(
                        input.new_custom_error(
                            CustomParseError::CouldNotParseCssUnsignedNumber(
                                conversion_error,
                                units,
                            ),
                        ),
                    ),
                }
            },
            Ok(t) => Err(input.new_unexpected_token_error(t)),
            Err(e) => Err(e),
        }
    }

    fn parse_one_inside_calc_function(context: &ParserContext, input: &mut TokenStream) -> (r:
        Result<CalcParseItem<CssUnsignedNumber>, PreciseParseError>) {
        match input.next() {
            Ok(CssToken::Number { units, int_value }) => {
                match <CssUnsignedNumber as CssNumber>::new(units) {
                    Ok(constant) => Ok(
                        CalcParseItem::Value(CalculablePropertyValue::Constant(constant)),
                    ),
                    Err(conversion_error) => Err(
                        input.new_custom_error(
                            CustomParseError::CouldNotParseCssUnsignedNumber(
                                conversion_error,
                                units,
                            ),
                        ),
                    ),
                }
            },
            Ok(CssToken::Percentage { unit_value_units }) => {
                match <CssUnsignedNumber as CssNumber>::new(unit_value_units) {
                    Ok(percentage) => Ok(
                        CalcParseItem::Value(
                            CalculablePropertyValue::Percentage(PercentageUnit(percentage)),
                        ),
                    ),
                    Err(conversion_error) => Err(
                        input.new_custom_error(
                            CustomParseError::CouldNotParseCssUnsignedNumber(
                                conversion_error,
                                unit_value_units,
                            ),
                        ),
                    ),
                }
            },
            Ok(t) => Err(input.new_unexpected_token_error(t)),
            Err(e) => Err(e),
        }
    }

    fn from_raw_css_for_var_expression_evaluation(
        value: &Vec<CssToken>,
        is_not_in_page_rule: bool,
    ) -> (r: Option<CssUnsignedNumber>) {
        let copy = clone_tokens(value);
        let mut stream = TokenStream::new(copy);
        let parsed = match stream.next() {
            Ok(CssToken::Number { units, int_value }) => {
                match <CssUnsignedNumber as CssNumber>::new(units) {
                    Ok(n) => n,
                    Err(_) => {
                        return None;
                    },
                }
            },
            Ok(_) => {
                return None;
            },
            Err(_) => {
                return None;
            },
        };
        stream.skip_whitespace();
        if stream.is_exhausted() {
            Some(parsed)
        } else {
            None
        }
    }
}

} // verus!
