//! The percentage unit: a number tagged as dimensioned, resolved to an
//! absolute value only when a conversion capability supplies the
//! one-hundred-percent base.

use vstd::prelude::*;
use crate::context::ParserContext;
use crate::conversions::FontRelativeLengthConversion;
use crate::conversions::PercentageConversion;
use crate::conversions::ViewportPercentageLengthConversion;
use crate::errors::CustomParseError;
use crate::errors::ParseErrorKind;
use crate::errors::PreciseParseError;
use crate::expressions::CalcExpression;
use crate::expressions::CalcParseItem;
use crate::expressions::CalculablePropertyValue;
use crate::expressions::parse_one_value_outside_calc_function;
use crate::expressions::function_dispatch_holds;
use crate::expressions::Unit;
use crate::numbers::clamp_units;
use crate::numbers::CssNumber;
use crate::numbers::CssUnsignedNumber;
use crate::numbers::mul_value;
use crate::serialization::css_decimal_chars;
use crate::serialization::units_to_decimal_string;
use crate::tokens::CssToken;
use crate::tokens::TokenStream;

verus! {

/// A percentage over a bounded number: `0%` is zero, `100%` is one.
#[derive(Debug, Clone, Copy, PartialEq, Eq, PartialOrd, Ord, Hash)]
pub struct PercentageUnit<Number: CssNumber>(pub Number);

/// The canonical text of a percentage whose number holds the given units.
pub open spec fn percentage_css_chars(units: int) -> Seq<char> {
    css_decimal_chars(units * 100) + "%"@
}

/// Two percentages that serialize identically hold the same number: the
/// serialized text determines the parsed value, so re-parsing it yields an
/// equal percentage.
pub proof fn lemma_identical_text_implies_equal_percentages(a: i64, b: i64)
    requires
        percentage_css_chars(a as int) == percentage_css_chars(b as int),
    ensures
        a == b,
{
    let ta = css_decimal_chars(a as int * 100);
    let tb = css_decimal_chars(b as int * 100);
    assert(percentage_css_chars(a as int) == ta + "%"@);
    assert(percentage_css_chars(b as int) == tb + "%"@);
    assert(ta.len() == tb.len());
    assert forall|i: int| 0 <= i < ta.len() implies ta[i] == tb[i] by {
        assert((ta + "%"@)[i] == ta[i]);
        assert((tb + "%"@)[i] == tb[i]);
    }
    assert(ta =~= tb);
    crate::serialization::lemma_css_decimal_chars_injective(a as int * 100, b as int * 100);
}

impl<Number: CssNumber> Default for PercentageUnit<Number> {
    fn default() -> (r: Self)
        ensures
            r.0.valid(),
            r.0.as_units() == 0,
    {
        PercentageUnit(Number::zero())
    }
}

impl<Number: CssNumber> PercentageUnit<Number> {
    /// `0%`.
    pub fn zero_percent() -> (r: Self)
        ensures
            r.0.valid(),
            r.0.as_units() == 0,
    {
        PercentageUnit(Number::zero())
    }

    /// `100%`.
    pub fn one_hundred_percent() -> (r: Self)
        ensures
            r.0.valid(),
            r.0.as_units() == crate::numbers::CSS_NUMBER_SCALE as int,
    {
        PercentageUnit(Number::one())
    }

    pub fn add(self, rhs: Number) -> (r: Self)
        requires
            self.0.valid(),
            rhs.valid(),
        ensures
            r.0.valid(),
            r.0.as_units() == clamp_units(self.0.as_units() + rhs.as_units()),
    {
        PercentageUnit(self.0.add(rhs))
    }

    pub fn sub(self, rhs: Number) -> (r: Self)
        requires
            self.0.valid(),
            rhs.valid(),
        ensures
            r.0.valid(),
            r.0.as_units() == clamp_units(self.0.as_units() - rhs.as_units()),
    {
        PercentageUnit(self.0.sub(rhs))
    }

    pub fn mul(self, rhs: Number) -> (r: Self)
        requires
            self.0.valid(),
            rhs.valid(),
        ensures
            r.0.valid(),
            r.0.as_units() == clamp_units(mul_value(self.0.as_units(), rhs.as_units())),
    {
        PercentageUnit(self.0.mul(rhs))
    }

    pub fn div(self, rhs: Number) -> (r: Self)
        requires
            self.0.valid(),
            rhs.valid(),
        ensures
            r.0.valid(),
            rhs.as_units() == 0 ==> r.0.as_units() == crate::numbers::extreme_for_sign(
                self.0.as_units(),
            ),
            rhs.as_units() != 0 ==> r.0.as_units() == clamp_units(
                crate::numbers::div_value(self.0.as_units(), rhs.as_units()),
            ),
    {
        PercentageUnit(self.0.div(rhs))
    }

    pub fn rem(self, rhs: Number) -> (r: Self)
        requires
            self.0.valid(),
            rhs.valid(),
        ensures
            r.0.valid(),
            rhs.as_units() == 0 ==> r.0.as_units() == crate::numbers::extreme_for_sign(
                self.0.as_units(),
            ),
            rhs.as_units() != 0 ==> r.0.as_units() == crate::numbers::rem_value(
                self.0.as_units(),
                rhs.as_units(),
            ),
    {
        PercentageUnit(self.0.rem(rhs))
    }

    pub fn neg(self) -> (r: Self)
        requires
            self.0.valid(),
        ensures
            r.0.valid(),
            r.0.as_units() == -self.0.as_units(),
    {
        PercentageUnit(self.0.neg())
    }

    /// The underlying number.
    pub fn to_CssNumber(self) -> (r: Number)
        ensures
            r == self.0,
    {
        self.0
    }

    /// The underlying number, by reference.
    pub fn as_CssNumber(&self) -> (r: &Number)
        ensures
            *r == self.0,
    {
        &self.0
    }

    /// The canonical serialized text, `37.5%` style.
    pub fn to_css_string(&self) -> (r: String)
        requires
            self.0.valid(),
        ensures
            r@ == percentage_css_chars(self.0.as_units()),
    {
        proof {
            reveal_strlit("%");
            self.0.lemma_valid_in_range();
        }
        let units = self.0.to_units();
        let mut s = units_to_decimal_string(units * 100);
        s.append("%");
        proof {
            assert(s@ =~= percentage_css_chars(self.0.as_units()));
        }
        s
    }

    /// Resolves this percentage against the absolute value that one hundred
    /// percent stands for. Resolution is pure: it reads the conversion and
    /// builds nothing else.
    pub fn to_absolute_value<Conversion: PercentageConversion<Number>>(
        &self,
        conversion: &Conversion,
    ) -> (r: Number)
        requires
            self.0.valid(),
        ensures
            r.valid(),
            r.as_units() == clamp_units(
                mul_value(self.0.as_units(), conversion.spec_one_hundred_percent().as_units()),
            ),
    {
        self.0.mul(conversion.one_hundred_percent_in_absolute_units())
    }

    /// The canonical dimension value of a percentage is its absolute
    /// resolution.
    pub fn to_canonical_dimension_value<Conversion: FontRelativeLengthConversion<Number>
        + ViewportPercentageLengthConversion<Number> + PercentageConversion<Number>>(
        &self,
        conversion: &Conversion,
    ) -> (r: Number)
        requires
            self.0.valid(),
        ensures
            r.valid(),
            r.as_units() == clamp_units(
                mul_value(self.0.as_units(), conversion.spec_one_hundred_percent().as_units()),
            ),
    {
        self.to_absolute_value(conversion)
    }
}

impl PercentageUnit<CssUnsignedNumber> {
    /// One dimensioned value: a bare percentage, a zero number, or a
    /// `calc`/`attr`/`var` function value.
    pub fn parse_one_outside_calc_function(context: &ParserContext, input: &mut TokenStream) -> (r:
        Result<CalculablePropertyValue<PercentageUnit<CssUnsignedNumber>>, PreciseParseError>)
        requires
            old(input).wf(),
        ensures
            final(input).wf(),
            final(input).tokens@ == old(input).tokens@,
            old(input).pos <= final(input).pos,
            ({
                let j = old(input).spec_next_pos();
                let toks = old(input).tokens@;
                &&& j < toks.len() ==> (<PercentageUnit<CssUnsignedNumber> as Unit>::spec_leaf_outside(
                    toks[j],
                    j + 1,
                ) matches Some(res) ==> r == res && final(input).pos == j + 1)
                &&& j < toks.len() && <PercentageUnit<CssUnsignedNumber> as Unit>::spec_leaf_outside(
                    toks[j],
                    j + 1,
                ) is None && !(toks[j] is Function) ==> (r matches Err(e) && e.kind
                    == ParseErrorKind::UnexpectedToken(toks[j]))
                &&& j < toks.len() ==> (toks[j] matches CssToken::Function(name)
                    ==> function_dispatch_holds::<PercentageUnit<CssUnsignedNumber>>(name@, r))
                &&& j == toks.len() ==> r is Err
            }),
    {
        parse_one_value_outside_calc_function::<PercentageUnit<CssUnsignedNumber>>(context, input)
    }
}

impl Unit for PercentageUnit<CssUnsignedNumber> {
    open spec fn spec_has_dimension() -> bool {
        true
    }

    open spec fn spec_leaf_outside(t: CssToken, at: int) -> Option<
        Result<CalculablePropertyValue<PercentageUnit<CssUnsignedNumber>>, PreciseParseError>,
    > {
        match t {
            CssToken::Number { units, int_value } => Some(
                Err(
                    (PreciseParseError {
                        kind: ParseErrorKind::Custom(
                            CustomParseError::CouldNotParseDimensionLessNumber(units),
                        ),
                        at: at as usize,
                    }),
                ),
            ),
            CssToken::Percentage { unit_value_units } => Some(
                if <CssUnsignedNumber as CssNumber>::construction_allowed(unit_value_units as int) {
                    Ok(
                        CalculablePropertyValue::Constant(
                            PercentageUnit(CssUnsignedNumber(unit_value_units)),
                        ),
                    )
                } else {
                    Err(
                        (PreciseParseError {
                            kind: ParseErrorKind::Custom(
                                CustomParseError::CouldNotParseCssUnsignedNumber(
                                    <CssUnsignedNumber as CssNumber>::construction_error(
                                        unit_value_units as int,
                                    ),
                                    unit_value_units,
                                ),
                            ),
                            at: at as usize,
                        }),
                    )
                },
            ),
            _ => None,
        }
    }

    open spec fn spec_leaf_inside(t: CssToken, at: int) -> Option<
        Result<CalcParseItem<PercentageUnit<CssUnsignedNumber>>, PreciseParseError>,
    > {
        match t {
            CssToken::Number { units, int_value } => Some(
                if <CssUnsignedNumber as CssNumber>::construction_allowed(units as int) {
                    Ok(CalcParseItem::SubExpression(CalcExpression::Number(CssUnsignedNumber(units))))
                } else {
                    Err(
                        (PreciseParseError {
                            kind: ParseErrorKind::Custom(
                                CustomParseError::CouldNotParseCssUnsignedNumber(
                                    <CssUnsignedNumber as CssNumber>::construction_error(
                                        units as int,
                                    ),
                                    units,
                                ),
                            ),
                            at: at as usize,
                        }),
                    )
                },
            ),
            CssToken::Percentage { unit_value_units } => Some(
                if <CssUnsignedNumber as CssNumber>::construction_allowed(unit_value_units as int) {
                    Ok(
                        CalcParseItem::Value(
                            CalculablePropertyValue::Constant(
                                PercentageUnit(CssUnsignedNumber(unit_value_units)),
                            ),
                        ),
                    )
                } else {
                    Err(
                        (PreciseParseError {
                            kind: ParseErrorKind::Custom(
                                CustomParseError::CouldNotParseCssUnsignedNumber(
                                    <CssUnsignedNumber as CssNumber>::construction_error(
                                        unit_value_units as int,
                                    ),
                                    unit_value_units,
                                ),
                            ),
                            at: at as usize,
                        }),
                    )
                },
            ),
            _ => None,
        }
    }

    open spec fn spec_from_raw_css(tokens: Seq<CssToken>) -> Option<
        PercentageUnit<CssUnsignedNumber>,
    > {
        let j = crate::tokens::next_non_ws(tokens, 0);
        if j < tokens.len() && crate::tokens::next_non_ws(tokens, j + 1) == tokens.len() {
            match tokens[j] {
                CssToken::Percentage { unit_value_units } => {
                    if <CssUnsignedNumber as CssNumber>::construction_allowed(
                        unit_value_units as int,
                    ) {
                        Some(PercentageUnit(CssUnsignedNumber(unit_value_units)))
                    } else {
                        None
                    }
                },
                _ => None,
            }
        } else {
            None
        }
    }

    proof fn lemma_function_token_not_leaf(t: CssToken, at: int) {
    }

    fn has_dimension() -> (r: bool) {
        true
    }

    fn parse_leaf_outside_calc_function(context: &ParserContext, input: &mut TokenStream) -> (r:
        Result<CalculablePropertyValue<PercentageUnit<CssUnsignedNumber>>, PreciseParseError>) {
        match input.next() {
            Ok(CssToken::Number { units, int_value }) => Err(
                input.new_custom_error(CustomParseError::CouldNotParseDimensionLessNumber(units)),
            ),
            Ok(CssToken::Percentage { unit_value_units }) => {
                match <CssUnsignedNumber as CssNumber>::new(unit_value_units) {
                    Ok(percentage) => Ok(
                        CalculablePropertyValue::Constant(PercentageUnit(percentage)),
                    ),
                    Err(conversion_error) => Err(
                        input.new_custom_error(
                            CustomParseError::CouldNotParseCssUnsignedNumber(
                                conversion_error,
                                unit_value_units,
                            ),
                        ),
                    ),
                }
            },
            Ok(t) => Err(input.new_unexpected_token_error(t)),
            Err(e) => Err(e),
        }
    }

    fn parse_one_inside_calc_function(context: &ParserContext, input: &mut TokenStream) -> (r:
        Result<CalcParseItem<PercentageUnit<CssUnsignedNumber>>, PreciseParseError>) {
        match input.next() {
            Ok(CssToken::Number { units, int_value }) => {
                match <CssUnsignedNumber as CssNumber>::new(units) {
                    Ok(constant) => Ok(
                        CalcParseItem::SubExpression(CalcExpression::Number(constant)),
                    ),
                    Err(conversion_error) => Err(
                        input.new_custom_error(
                            CustomParseError::CouldNotParseCssUnsignedNumber(
                                conversion_error,
                                units,
                            ),
                        ),
                    ),
                }
            },
            Ok(CssToken::Percentage { unit_value_units }) => {
                match <CssUnsignedNumber as CssNumber>::new(unit_value_units) {
                    Ok(percentage) => Ok(
                        CalcParseItem::Value(
                            CalculablePropertyValue::Constant(PercentageUnit(percentage)),
                        ),
                    ),
                    Err(conversion_error) => Err(
                        input.new_custom_error(
                            CustomParseError::CouldNotParseCssUnsignedNumber(
                                conversion_error,
                                unit_value_units,
                            ),
                        ),
                    ),
                }
            },
            Ok(t) => Err(input.new_unexpected_token_error(t)),
            Err(e) => Err(e),
        }
    }

    fn from_raw_css_for_var_expression_evaluation(
        value: &Vec<CssToken>,
        is_not_in_page_rule: bool,
    ) -> (r: Option<PercentageUnit<CssUnsignedNumber>>) {
        let copy = crate::expressions::clone_tokens(value);
        let mut stream = TokenStream::new(copy);
        let parsed = match stream.next() {
            Ok(CssToken::Percentage { unit_value_units }) => {
                match <CssUnsignedNumber as CssNumber>::new(unit_value_units) {
                    Ok(percentage) => PercentageUnit(percentage),
                    Err(_) => {
                        return None;
                    },
                }
            },
            Ok(_) => {
                return None;
            },
            Err(_) => {
                return None;
            },
        };
        stream.skip_whitespace();
        if stream.is_exhausted() {
            Some(parsed)
        } else {
            None
        }
    }
}

} // verus!
