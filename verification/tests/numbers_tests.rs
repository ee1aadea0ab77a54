use css::numbers::CssNumber;
use css::numbers::CssNumberConversionError;
use css::numbers::CssSignedNumber;
use css::numbers::CssUnsignedNumber;
use css::numbers::CSS_NUMBER_MAX_UNITS;
use css::numbers::CSS_NUMBER_MIN_UNITS;
use css::numbers::CSS_NUMBER_SCALE;

#[test]
fn construction_rejects_negative_for_unsigned() {
    assert_eq!(
        <CssUnsignedNumber as CssNumber>::new(-1),
        Err(CssNumberConversionError::ValueWasNegative)
    );
    assert_eq!(<CssUnsignedNumber as CssNumber>::new(42), Ok(CssUnsignedNumber(42)));
}

#[test]
fn construction_rejects_out_of_range() {
    assert_eq!(
        <CssUnsignedNumber as CssNumber>::new(CSS_NUMBER_MAX_UNITS + 1),
        Err(CssNumberConversionError::ValueWasOutOfRange)
    );
}

#[test]
fn signed_construction_accepts_negative() {
    assert_eq!(<CssSignedNumber as CssNumber>::new(-42), Ok(CssSignedNumber(-42)));
}

#[test]
fn addition_is_exact_and_saturating() {
    let two = CssUnsignedNumber(2 * CSS_NUMBER_SCALE);
    let three = CssUnsignedNumber(3 * CSS_NUMBER_SCALE);
    assert_eq!(two.add(three), CssUnsignedNumber(5 * CSS_NUMBER_SCALE));
    let max = CssUnsignedNumber(CSS_NUMBER_MAX_UNITS);
    assert_eq!(max.add(max), CssUnsignedNumber(CSS_NUMBER_MAX_UNITS));
}

#[test]
fn subtraction_can_go_negative() {
    let two = CssUnsignedNumber(2 * CSS_NUMBER_SCALE);
    let three = CssUnsignedNumber(3 * CSS_NUMBER_SCALE);
    assert_eq!(two.sub(three), CssUnsignedNumber(-CSS_NUMBER_SCALE));
}

#[test]
fn multiplication_is_fixed_point() {
    let half = CssUnsignedNumber(CSS_NUMBER_SCALE / 2);
    let three = CssUnsignedNumber(3 * CSS_NUMBER_SCALE);
    assert_eq!(half.mul(three), CssUnsignedNumber(CSS_NUMBER_SCALE * 3 / 2));
}

#[test]
fn division_is_fixed_point() {
    let three = CssUnsignedNumber(3 * CSS_NUMBER_SCALE);
    let two = CssUnsignedNumber(2 * CSS_NUMBER_SCALE);
    assert_eq!(three.div(two), CssUnsignedNumber(CSS_NUMBER_SCALE * 3 / 2));
}

#[test]
fn division_by_zero_resolves_to_the_extreme_matching_the_dividends_sign() {
    let one = CssUnsignedNumber(CSS_NUMBER_SCALE);
    let minus_one = CssUnsignedNumber(-CSS_NUMBER_SCALE);
    let zero = CssUnsignedNumber(0);
    assert_eq!(one.div(zero), CssUnsignedNumber(CSS_NUMBER_MAX_UNITS));
    assert_eq!(minus_one.div(zero), CssUnsignedNumber(CSS_NUMBER_MIN_UNITS));
    assert_eq!(zero.div(zero), CssUnsignedNumber(CSS_NUMBER_MAX_UNITS));
}

#[test]
fn division_by_zero_result_is_an_ordinary_value_under_equality() {
    let one = CssUnsignedNumber(CSS_NUMBER_SCALE);
    let zero = CssUnsignedNumber(0);
    let clamped = one.div(zero);
    assert_eq!(clamped, <CssUnsignedNumber as CssNumber>::maximum());
    assert!(clamped == clamped.add(zero));
}

#[test]
fn remainder_by_zero_resolves_to_the_extreme() {
    let one = CssUnsignedNumber(CSS_NUMBER_SCALE);
    let zero = CssUnsignedNumber(0);
    assert_eq!(one.rem(zero), CssUnsignedNumber(CSS_NUMBER_MAX_UNITS));
}

#[test]
fn remainder_keeps_the_dividends_sign() {
    let seven = CssSignedNumber(7 * CSS_NUMBER_SCALE);
    let minus_seven = CssSignedNumber(-7 * CSS_NUMBER_SCALE);
    let four = CssSignedNumber(4 * CSS_NUMBER_SCALE);
    assert_eq!(seven.rem(four), CssSignedNumber(3 * CSS_NUMBER_SCALE));
    assert_eq!(minus_seven.rem(four), CssSignedNumber(-3 * CSS_NUMBER_SCALE));
}

#[test]
fn named_constants() {
    assert_eq!(<CssUnsignedNumber as CssNumber>::zero(), CssUnsignedNumber(0));
    assert_eq!(<CssUnsignedNumber as CssNumber>::one(), CssUnsignedNumber(CSS_NUMBER_SCALE));
    assert_eq!(
        <CssUnsignedNumber as CssNumber>::maximum(),
        CssUnsignedNumber(CSS_NUMBER_MAX_UNITS)
    );
    assert_eq!(
        <CssUnsignedNumber as CssNumber>::minimum(),
        CssUnsignedNumber(CSS_NUMBER_MIN_UNITS)
    );
}

#[test]
fn decimal_serialization() {
    assert_eq!(CssUnsignedNumber(37_500_000).to_css_string(), "37.5");
    assert_eq!(CssUnsignedNumber(0).to_css_string(), "0");
    assert_eq!(CssUnsignedNumber(375_000).to_css_string(), "0.375");
    assert_eq!(CssUnsignedNumber(1_000_000).to_css_string(), "1");
    assert_eq!(CssUnsignedNumber(-2_500_000).to_css_string(), "-2.5");
    assert_eq!(CssUnsignedNumber(1).to_css_string(), "0.000001");
    assert_eq!(CssSignedNumber(-1).to_css_string(), "-0.000001");
}

#[test]
fn negation_is_exact() {
    assert_eq!(CssUnsignedNumber(5).neg(), CssUnsignedNumber(-5));
    assert_eq!(CssUnsignedNumber(0).neg(), CssUnsignedNumber(0));
}
