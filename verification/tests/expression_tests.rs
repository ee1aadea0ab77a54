use css::context::ParserContext;
use css::conversions::CssVariableTable;
use css::conversions::Device;
use css::conversions::FontRelativeLengthConversion;
use css::conversions::PercentageConversion;
use css::errors::CustomParseError;
use css::errors::ParseErrorKind;
use css::expressions::CalcExpression;
use css::expressions::CalculablePropertyValue;
use css::expressions::Unit;
use css::expressions::VarExpression;
use css::numbers::CssNumber;
use css::numbers::CssUnsignedNumber;
use css::numbers::CSS_NUMBER_SCALE;
use css::tokens::CssToken;
use css::tokens::TokenStream;
use css::units::PercentageUnit;

fn stream(tokens: Vec<CssToken>) -> TokenStream {
    TokenStream::new(tokens)
}

fn number(i: i64) -> CssToken {
    CssToken::Number { units: i * CSS_NUMBER_SCALE, int_value: Some(i as i32) }
}

fn custom_error(e: &css::errors::PreciseParseError) -> &CustomParseError {
    match &e.kind {
        ParseErrorKind::Custom(ce) => ce,
        other => panic!("expected a custom error, got {:?}", other),
    }
}

#[test]
fn a_bare_number_is_a_constant_for_the_dimensionless_unit() {
    let context = ParserContext::new(false);
    let mut input = stream(vec![number(7)]);
    let value = CssUnsignedNumber::parse_one_outside_calc_function(&context, &mut input).unwrap();
    assert_eq!(
        value,
        CalculablePropertyValue::Constant(CssUnsignedNumber(7 * CSS_NUMBER_SCALE))
    );
}

#[test]
fn a_bare_percentage_is_rejected_by_the_dimensionless_unit() {
    let context = ParserContext::new(false);
    let mut input = stream(vec![CssToken::Percentage { unit_value_units: 375_000 }]);
    let error = CssUnsignedNumber::parse_one_outside_calc_function(&context, &mut input)
        .unwrap_err();
    assert!(matches!(error.kind, ParseErrorKind::UnexpectedToken(_)));
}

#[test]
fn a_bare_nonzero_number_is_rejected_by_the_dimensioned_unit() {
    let context = ParserContext::new(false);
    let mut input = stream(vec![number(7)]);
    let error = PercentageUnit::<CssUnsignedNumber>::parse_one_outside_calc_function(
        &context,
        &mut input,
    )
    .unwrap_err();
    assert_eq!(
        *custom_error(&error),
        CustomParseError::CouldNotParseDimensionLessNumber(7 * CSS_NUMBER_SCALE)
    );
}

#[test]
fn a_bare_percentage_is_a_constant_for_the_dimensioned_unit() {
    let context = ParserContext::new(false);
    let mut input = stream(vec![CssToken::Percentage { unit_value_units: 375_000 }]);
    let value = PercentageUnit::<CssUnsignedNumber>::parse_one_outside_calc_function(
        &context,
        &mut input,
    )
    .unwrap();
    assert_eq!(
        value,
        CalculablePropertyValue::Constant(PercentageUnit(CssUnsignedNumber(375_000)))
    );
}

#[test]
fn an_unknown_function_is_rejected_by_name() {
    let context = ParserContext::new(false);
    let mut input = stream(vec![
        CssToken::Function("sparkle".to_owned()),
        CssToken::CloseParenthesis,
    ]);
    let error = CssUnsignedNumber::parse_one_outside_calc_function(&context, &mut input)
        .unwrap_err();
    assert_eq!(
        *custom_error(&error),
        CustomParseError::UnknownFunctionInValueExpression("sparkle".to_owned())
    );
}

#[test]
fn calc_builds_a_sum_tree() {
    let context = ParserContext::new(false);
    let mut input = stream(vec![
        CssToken::Function("calc".to_owned()),
        number(1),
        CssToken::WhiteSpace,
        CssToken::Delim('+'),
        CssToken::WhiteSpace,
        number(2),
        CssToken::CloseParenthesis,
    ]);
    let value = CssUnsignedNumber::parse_one_outside_calc_function(&context, &mut input).unwrap();
    match value {
        CalculablePropertyValue::Calc(calc) => match &*calc.0 {
            CalcExpression::Sum(lhs, rhs) => {
                assert_eq!(
                    **lhs,
                    CalcExpression::Value(Box::new(CalculablePropertyValue::Constant(
                        CssUnsignedNumber(CSS_NUMBER_SCALE)
                    )))
                );
                assert_eq!(
                    **rhs,
                    CalcExpression::Value(Box::new(CalculablePropertyValue::Constant(
                        CssUnsignedNumber(2 * CSS_NUMBER_SCALE)
                    )))
                );
            },
            other => panic!("expected a sum, got {:?}", other),
        },
        other => panic!("expected a calc value, got {:?}", other),
    }
}

#[test]
fn calc_products_bind_tighter_than_sums() {
    let context = ParserContext::new(false);
    let mut input = stream(vec![
        CssToken::Function("calc".to_owned()),
        number(1),
        CssToken::Delim('+'),
        number(2),
        CssToken::Delim('*'),
        number(3),
        CssToken::CloseParenthesis,
    ]);
    let value = CssUnsignedNumber::parse_one_outside_calc_function(&context, &mut input).unwrap();
    match value {
        CalculablePropertyValue::Calc(calc) => match &*calc.0 {
            CalcExpression::Sum(_, rhs) => {
                assert!(matches!(&**rhs, CalcExpression::Product(_, _)));
            },
            other => panic!("expected a sum at the root, got {:?}", other),
        },
        other => panic!("expected a calc value, got {:?}", other),
    }
}

#[test]
fn var_names_must_start_with_two_dashes() {
    let context = ParserContext::new(false);
    let mut input = stream(vec![
        CssToken::Ident("x".to_owned()),
        CssToken::CloseParenthesis,
    ]);
    let error = VarExpression::parse(&context, &mut input).unwrap_err();
    assert_eq!(
        *custom_error(&error),
        CustomParseError::CssVariablesInVarExpressionsMustStartWithTwoDashes("x".to_owned())
    );
}

#[test]
fn var_evaluation_reads_the_table_and_falls_back() {
    let context = ParserContext::new(false);
    let mut input = stream(vec![
        CssToken::Ident("--x".to_owned()),
        CssToken::CloseParenthesis,
    ]);
    let var = VarExpression::parse(&context, &mut input).unwrap();
    let table = CssVariableTable { entries: vec![("x".to_owned(), vec![number(2)])] };
    let value: Option<CssUnsignedNumber> = var.evaluate(&table, true);
    assert_eq!(value, Some(CssUnsignedNumber(2 * CSS_NUMBER_SCALE)));
    let empty_table = CssVariableTable { entries: Vec::new() };
    let missing: Option<CssUnsignedNumber> = var.evaluate(&empty_table, true);
    assert_eq!(missing, None);
}

#[test]
fn var_fallback_is_used_when_the_variable_is_unset() {
    let context = ParserContext::new(false);
    let mut input = stream(vec![
        CssToken::Ident("--x".to_owned()),
        CssToken::Comma,
        number(5),
        CssToken::CloseParenthesis,
    ]);
    let var = VarExpression::parse(&context, &mut input).unwrap();
    let empty_table = CssVariableTable { entries: Vec::new() };
    let value: Option<CssUnsignedNumber> = var.evaluate(&empty_table, true);
    assert_eq!(value, Some(CssUnsignedNumber(5 * CSS_NUMBER_SCALE)));
}

#[test]
fn raw_value_reparsing_is_total_and_rejects_trailing_garbage() {
    let good = vec![CssToken::WhiteSpace, number(3), CssToken::WhiteSpace];
    assert_eq!(
        CssUnsignedNumber::from_raw_css_for_var_expression_evaluation(&good, true),
        Some(CssUnsignedNumber(3 * CSS_NUMBER_SCALE))
    );
    let trailing = vec![number(3), CssToken::WhiteSpace, number(4)];
    assert_eq!(
        CssUnsignedNumber::from_raw_css_for_var_expression_evaluation(&trailing, true),
        None
    );
}

#[test]
fn percentages_resolve_against_the_conversion_base() {
    let base = CssUnsignedNumber(200 * CSS_NUMBER_SCALE);
    let n = CssUnsignedNumber(CSS_NUMBER_SCALE);
    let device = Device::new(n, n, n, n, n, n, n, n, base);
    let percentage = PercentageUnit(CssUnsignedNumber(375_000));
    let resolved = percentage.to_absolute_value(&device);
    assert_eq!(resolved, CssUnsignedNumber(75 * CSS_NUMBER_SCALE));
    assert_eq!(device.one_hundred_percent_in_absolute_units(), base);
    assert_eq!(device.em(), n);
}

#[test]
fn percentage_serialization() {
    let percentage = PercentageUnit(CssUnsignedNumber(375_000));
    assert_eq!(percentage.to_css_string(), "37.5%");
    let whole = PercentageUnit(CssUnsignedNumber(CSS_NUMBER_SCALE));
    assert_eq!(whole.to_css_string(), "100%");
}

#[test]
fn unit_dimension_flags() {
    assert!(!<CssUnsignedNumber as Unit>::has_dimension());
    assert!(<PercentageUnit<CssUnsignedNumber> as Unit>::has_dimension());
}

#[test]
fn percentage_arithmetic_delegates_to_the_number() {
    let p = PercentageUnit(CssUnsignedNumber(500_000));
    let two = CssUnsignedNumber(2 * CSS_NUMBER_SCALE);
    assert_eq!(p.mul(two), PercentageUnit(CssUnsignedNumber(CSS_NUMBER_SCALE)));
    assert_eq!(p.add(two), PercentageUnit(CssUnsignedNumber(2_500_000)));
    let zero = CssUnsignedNumber(0);
    assert_eq!(
        p.div(zero),
        PercentageUnit(CssUnsignedNumber(css::numbers::CSS_NUMBER_MAX_UNITS))
    );
}

#[test]
fn an_unknown_function_inside_calc_is_rejected_by_name() {
    let context = ParserContext::new(false);
    let mut input = stream(vec![
        CssToken::Function("calc".to_owned()),
        number(1),
        CssToken::Delim('+'),
        CssToken::Function("blob".to_owned()),
        number(2),
        CssToken::CloseParenthesis,
        CssToken::CloseParenthesis,
    ]);
    let error = CssUnsignedNumber::parse_one_outside_calc_function(&context, &mut input)
        .unwrap_err();
    assert_eq!(
        *custom_error(&error),
        CustomParseError::UnknownFunctionInValueExpression("blob".to_owned())
    );
}
