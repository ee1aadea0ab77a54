use css::context::ParserContext;
use css::errors::CustomParseError;
use css::errors::ParseErrorKind;
use css::errors::System;
use css::font_face::FontFeatureSetting;
use css::numbers::CSS_NUMBER_SCALE;
use css::parsers::font_feature_values_declarations_parser::FontFeatureValuesDeclarationsParser;
use css::parsers::keyframe_list_parser::KeyframeListParser;
use css::parsers::keyframe_list_parser::KeyframePercentage;
use css::parsers::keyframe_list_parser::KeyframeSelector;
use css::rules::CounterStyleAtRule;
use css::rules::CounterStyleIdent;
use css::rules::FontFeatureValuesDeclaration;
use css::rules::KeyframesName;
use css::tokens::CssToken;
use css::tokens::TokenStream;

fn ident(s: &str) -> CssToken {
    CssToken::Ident(s.to_owned())
}

fn string(s: &str) -> CssToken {
    CssToken::QuotedString(s.to_owned())
}

fn integer(i: i32) -> CssToken {
    CssToken::Number { units: (i as i64) * CSS_NUMBER_SCALE, int_value: Some(i) }
}

fn stream(tokens: Vec<CssToken>) -> TokenStream {
    TokenStream::new(tokens)
}

fn custom_error(e: &css::errors::PreciseParseError) -> &CustomParseError {
    match &e.kind {
        ParseErrorKind::Custom(ce) => ce,
        other => panic!("expected a custom error, got {:?}", other),
    }
}

#[test]
fn font_feature_setting_with_integer_value() {
    let mut input = stream(vec![string("swsh"), CssToken::WhiteSpace, integer(2)]);
    let setting = FontFeatureSetting::parse(&mut input).unwrap();
    assert_eq!(setting, FontFeatureSetting("swsh".to_owned(), 2));
}

#[test]
fn font_feature_setting_on_is_one() {
    let mut input = stream(vec![string("swsh"), CssToken::WhiteSpace, ident("on")]);
    let setting = FontFeatureSetting::parse(&mut input).unwrap();
    assert_eq!(setting, FontFeatureSetting("swsh".to_owned(), 1));
}

#[test]
fn font_feature_setting_off_is_zero() {
    let mut input = stream(vec![string("swsh"), CssToken::WhiteSpace, ident("off")]);
    let setting = FontFeatureSetting::parse(&mut input).unwrap();
    assert_eq!(setting, FontFeatureSetting("swsh".to_owned(), 0));
}

#[test]
fn font_feature_setting_tag_must_be_four_characters() {
    let mut input = stream(vec![string("ab"), CssToken::WhiteSpace, integer(1)]);
    let error = FontFeatureSetting::parse(&mut input).unwrap_err();
    assert_eq!(
        *custom_error(&error),
        CustomParseError::FontFeatureSettingOpenTypeFeatureTagMustBeFourCharacters(
            "ab".to_owned()
        )
    );
}

#[test]
fn font_feature_setting_tag_must_be_printable_ascii() {
    let mut input = stream(vec![string("sw\u{7}h"), CssToken::WhiteSpace, integer(1)]);
    let error = FontFeatureSetting::parse(&mut input).unwrap_err();
    assert_eq!(
        *custom_error(&error),
        CustomParseError::FontFeatureSettingOpenTypeFeatureTagMustBePrintableAscii(
            "sw\u{7}h".to_owned()
        )
    );
}

#[test]
fn font_feature_setting_integer_must_be_positive() {
    let mut input = stream(vec![
        string("swsh"),
        CssToken::WhiteSpace,
        CssToken::Number { units: -2 * CSS_NUMBER_SCALE, int_value: Some(-2) },
    ]);
    let error = FontFeatureSetting::parse(&mut input).unwrap_err();
    assert_eq!(
        *custom_error(&error),
        CustomParseError::FontFeatureSettingIntegerMustBePositive(-2)
    );
}

#[test]
fn font_feature_setting_word_must_be_on_or_off() {
    let mut input = stream(vec![string("swsh"), CssToken::WhiteSpace, ident("maybe")]);
    let error = FontFeatureSetting::parse(&mut input).unwrap_err();
    assert_eq!(
        *custom_error(&error),
        CustomParseError::FontFeatureSettingIfNotAnIntegerMustBeOnOrOff("maybe".to_owned())
    );
}

#[test]
fn counter_style_name_exclusions() {
    let mut input = stream(vec![ident("none")]);
    let error = CounterStyleIdent::parseForCounterStyleAtRule(&mut input).unwrap_err();
    assert_eq!(*custom_error(&error), CustomParseError::NoneIsNotAllowedInACounterStyleIdent);
    let mut input = stream(vec![ident("decimal")]);
    let error = CounterStyleIdent::parseForCounterStyleAtRule(&mut input).unwrap_err();
    assert_eq!(
        *custom_error(&error),
        CustomParseError::DecimalOrDiscIsNotAllowedInACounterStyleIdentInACounterStyleAtRule
    );
    let mut input = stream(vec![ident("thumbs")]);
    let name = CounterStyleIdent::parseForCounterStyleAtRule(&mut input).unwrap();
    assert_eq!(name, CounterStyleIdent("thumbs".to_owned()));
}

#[test]
fn counter_style_requires_symbols() {
    let context = ParserContext::new(false);
    let mut input = stream(vec![
        ident("system"),
        CssToken::Colon,
        ident("cyclic"),
        CssToken::Semicolon,
        CssToken::CloseCurlyBracket,
    ]);
    let error = CounterStyleAtRule::parse_body(
        CounterStyleIdent("thumbs".to_owned()),
        &context,
        &mut input,
    )
    .unwrap_err();
    assert_eq!(
        *custom_error(&error),
        CustomParseError::InvalidCounterStyleWithoutSymbols(System::Cyclic)
    );
}

#[test]
fn counter_style_alphabetic_needs_two_symbols() {
    let context = ParserContext::new(false);
    let mut input = stream(vec![
        ident("system"),
        CssToken::Colon,
        ident("alphabetic"),
        CssToken::Semicolon,
        ident("symbols"),
        CssToken::Colon,
        string("a"),
        CssToken::Semicolon,
        CssToken::CloseCurlyBracket,
    ]);
    let error = CounterStyleAtRule::parse_body(
        CounterStyleIdent("letters".to_owned()),
        &context,
        &mut input,
    )
    .unwrap_err();
    assert_eq!(
        *custom_error(&error),
        CustomParseError::InvalidCounterStyleNotEnoughSymbols(System::Alphabetic)
    );
}

#[test]
fn counter_style_extends_allows_no_symbols() {
    let context = ParserContext::new(false);
    let mut input = stream(vec![
        ident("system"),
        CssToken::Colon,
        ident("extends"),
        CssToken::WhiteSpace,
        ident("decimal"),
        CssToken::Semicolon,
        ident("symbols"),
        CssToken::Colon,
        string("a"),
        CssToken::Semicolon,
        CssToken::CloseCurlyBracket,
    ]);
    let error = CounterStyleAtRule::parse_body(
        CounterStyleIdent("copy".to_owned()),
        &context,
        &mut input,
    )
    .unwrap_err();
    assert_eq!(*custom_error(&error), CustomParseError::InvalidCounterStyleExtendsWithSymbols);
}

#[test]
fn counter_style_valid_symbolic() {
    let context = ParserContext::new(false);
    let mut input = stream(vec![
        ident("symbols"),
        CssToken::Colon,
        string("a"),
        CssToken::WhiteSpace,
        string("b"),
        CssToken::Semicolon,
        CssToken::CloseCurlyBracket,
    ]);
    let rule = CounterStyleAtRule::parse_body(
        CounterStyleIdent("pair".to_owned()),
        &context,
        &mut input,
    )
    .unwrap();
    assert_eq!(rule.system, None);
    assert_eq!(rule.symbols, Some(vec!["a".to_owned(), "b".to_owned()]));
}

#[test]
fn keyframe_stops() {
    let mut input = stream(vec![ident("from")]);
    assert_eq!(KeyframePercentage::parse(&mut input), Ok(KeyframePercentage(0)));
    let mut input = stream(vec![ident("to")]);
    assert_eq!(KeyframePercentage::parse(&mut input), Ok(KeyframePercentage(CSS_NUMBER_SCALE)));
    let mut input = stream(vec![CssToken::Percentage { unit_value_units: 500_000 }]);
    assert_eq!(KeyframePercentage::parse(&mut input), Ok(KeyframePercentage(500_000)));
}

#[test]
fn keyframe_stop_out_of_range() {
    let mut input = stream(vec![CssToken::Percentage { unit_value_units: 2 * CSS_NUMBER_SCALE }]);
    let error = KeyframePercentage::parse(&mut input).unwrap_err();
    assert_eq!(
        *custom_error(&error),
        CustomParseError::KeyframePercentageWasNotBetweenZeroAndOneInclusive(2 * CSS_NUMBER_SCALE)
    );
}

#[test]
fn keyframe_list_parses_stops_and_blocks() {
    let context = ParserContext::new(false);
    let mut input = stream(vec![
        ident("from"),
        CssToken::Comma,
        CssToken::WhiteSpace,
        CssToken::Percentage { unit_value_units: 500_000 },
        CssToken::WhiteSpace,
        CssToken::CurlyBracketBlock,
        ident("width"),
        CssToken::Colon,
        CssToken::Percentage { unit_value_units: 500_000 },
        CssToken::CloseCurlyBracket,
        CssToken::CloseCurlyBracket,
    ]);
    let keyframes = KeyframeListParser::parse_keyframe_list(&context, &mut input).unwrap();
    assert_eq!(keyframes.len(), 1);
    assert_eq!(
        keyframes[0].selector,
        KeyframeSelector(vec![KeyframePercentage(0), KeyframePercentage(500_000)])
    );
    assert_eq!(keyframes[0].property_declarations.0.len(), 1);
    assert_eq!(keyframes[0].property_declarations.0[0].name, "width");
}

#[test]
fn keyframes_name_excludes_css_wide_keywords() {
    let mut input = stream(vec![ident("initial")]);
    let error = KeyframesName::parse(&mut input).unwrap_err();
    assert_eq!(
        *custom_error(&error),
        CustomParseError::CustomIdentWasExcluded("initial".to_owned())
    );
    let mut input = stream(vec![ident("slide")]);
    assert_eq!(KeyframesName::parse(&mut input), Ok(KeyframesName::Ident("slide".to_owned())));
}

#[test]
fn feature_values_declarations_last_write_wins_in_place() {
    let context = ParserContext::new(false);
    let mut declarations: Vec<FontFeatureValuesDeclaration> = Vec::new();
    let mut input = stream(vec![
        ident("alpha"),
        CssToken::Colon,
        integer(1),
        CssToken::Semicolon,
        ident("beta"),
        CssToken::Colon,
        integer(2),
        CssToken::Semicolon,
        ident("alpha"),
        CssToken::Colon,
        integer(3),
        CssToken::WhiteSpace,
        integer(4),
        CssToken::Semicolon,
        CssToken::CloseCurlyBracket,
    ]);
    FontFeatureValuesDeclarationsParser::parseBlock(&mut input, &context, &mut declarations)
        .unwrap();
    assert_eq!(declarations.len(), 2);
    assert_eq!(declarations[0].name, "alpha");
    assert_eq!(declarations[0].value, vec![3, 4]);
    assert_eq!(declarations[1].name, "beta");
    assert_eq!(declarations[1].value, vec![2]);
}

#[test]
fn feature_values_reject_negative_integers() {
    let context = ParserContext::new(false);
    let mut declarations: Vec<FontFeatureValuesDeclaration> = Vec::new();
    let mut input = stream(vec![
        ident("alpha"),
        CssToken::Colon,
        CssToken::Number { units: -CSS_NUMBER_SCALE, int_value: Some(-1) },
        CssToken::Semicolon,
        CssToken::CloseCurlyBracket,
    ]);
    let error = FontFeatureValuesDeclarationsParser::parseBlock(
        &mut input,
        &context,
        &mut declarations,
    )
    .unwrap_err();
    assert_eq!(*custom_error(&error), CustomParseError::UnsignedIntegersCanNotBeNegative(-1));
}

#[test]
fn keyframes_name_serializes() {
    assert_eq!(KeyframesName::Ident("slide".to_owned()).to_css_string(), "slide");
    assert_eq!(KeyframesName::QuotedString("sl ide".to_owned()).to_css_string(), "\"sl ide\"");
}

#[test]
fn unknown_counter_style_system_is_an_error() {
    let context = ParserContext::new(false);
    let mut input = stream(vec![
        ident("system"),
        CssToken::Colon,
        ident("spiral"),
        CssToken::Semicolon,
        CssToken::CloseCurlyBracket,
    ]);
    let error = CounterStyleAtRule::parse_body(
        CounterStyleIdent("whirl".to_owned()),
        &context,
        &mut input,
    )
    .unwrap_err();
    assert_eq!(
        *custom_error(&error),
        CustomParseError::CounterStyleSystemIsNotKnown("spiral".to_owned())
    );
}

#[test]
fn counter_style_additive_needs_additive_symbols() {
    let context = ParserContext::new(false);
    let mut input = stream(vec![
        ident("system"),
        CssToken::Colon,
        ident("additive"),
        CssToken::Semicolon,
        CssToken::CloseCurlyBracket,
    ]);
    let error = CounterStyleAtRule::parse_body(
        CounterStyleIdent("weights".to_owned()),
        &context,
        &mut input,
    )
    .unwrap_err();
    assert_eq!(
        *custom_error(&error),
        CustomParseError::InvalidCounterStyleWithoutAdditiveSymbols
    );
}

#[test]
fn counter_style_empty_symbols_are_rejected() {
    let context = ParserContext::new(false);
    let mut input = stream(vec![
        ident("symbols"),
        CssToken::Colon,
        CssToken::Semicolon,
        CssToken::CloseCurlyBracket,
    ]);
    let error = CounterStyleAtRule::parse_body(
        CounterStyleIdent("empty".to_owned()),
        &context,
        &mut input,
    )
    .unwrap_err();
    assert_eq!(*custom_error(&error), CustomParseError::CounterStyleSymbolsCanNotBeEmpty);
}

#[test]
fn an_empty_counter_style_body_lacks_symbols() {
    let context = ParserContext::new(false);
    let mut input = stream(vec![CssToken::CloseCurlyBracket]);
    let error = CounterStyleAtRule::parse_body(
        CounterStyleIdent("bare".to_owned()),
        &context,
        &mut input,
    )
    .unwrap_err();
    assert_eq!(
        *custom_error(&error),
        CustomParseError::InvalidCounterStyleWithoutSymbols(System::Symbolic)
    );
}

#[test]
fn an_empty_feature_values_body_has_empty_lists() {
    let context = ParserContext::new(false);
    let mut input = stream(vec![CssToken::CloseCurlyBracket]);
    let rule = css::rules::FontFeatureValuesAtRule::parse_body(
        &context,
        &mut input,
        vec![css::rules::FamilyName { name: "Jupiter".to_owned() }],
    )
    .unwrap();
    assert_eq!(rule.family_names.len(), 1);
    assert_eq!(rule.swash.len(), 0);
    assert_eq!(rule.styleset.len(), 0);
}
