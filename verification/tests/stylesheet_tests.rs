use css::context::ParserContext;
use css::context::State;
use css::errors::CustomParseError;
use css::errors::ParseErrorKind;
use css::numbers::CssUnsignedNumber;
use css::parsers::top_level_rule_parser::TopLevelRuleParser;
use css::rules::CssRule;
use css::selectors::NamespaceConstraint;
use css::tokens::CssToken;
use css::tokens::TokenStream;
use css::units::PercentageUnit;

fn to_units(value: f32) -> i64 {
    ((value as f64) * 1_000_000f64).round() as i64
}

fn flatten<'i>(parser: &mut cssparser::Parser<'i>, out: &mut Vec<CssToken>) {
    loop {
        let token = match parser.next_including_whitespace() {
            Ok(t) => t.clone(),
            Err(_) => break,
        };
        match token {
            cssparser::Token::Ident(s) => out.push(CssToken::Ident(s.as_ref().to_owned())),
            cssparser::Token::AtKeyword(s) => {
                out.push(CssToken::AtKeyword(s.as_ref().to_owned()))
            }
            cssparser::Token::Hash(s) => out.push(CssToken::Hash(s.as_ref().to_owned())),
            cssparser::Token::IDHash(s) => out.push(CssToken::IdHash(s.as_ref().to_owned())),
            cssparser::Token::QuotedString(s) => {
                out.push(CssToken::QuotedString(s.as_ref().to_owned()))
            }
            cssparser::Token::UnquotedUrl(s) => {
                out.push(CssToken::UnquotedUrl(s.as_ref().to_owned()))
            }
            cssparser::Token::Number { value, int_value, .. } => {
                out.push(CssToken::Number { units: to_units(value), int_value })
            }
            cssparser::Token::Percentage { unit_value, .. } => {
                out.push(CssToken::Percentage { unit_value_units: to_units(unit_value) })
            }
            cssparser::Token::Dimension { value, unit, .. } => out.push(CssToken::Dimension {
                units: to_units(value),
                unit: unit.as_ref().to_owned(),
            }),
            cssparser::Token::WhiteSpace(_) => out.push(CssToken::WhiteSpace),
            cssparser::Token::Comment(_) => out.push(CssToken::WhiteSpace),
            cssparser::Token::Colon => out.push(CssToken::Colon),
            cssparser::Token::Semicolon => out.push(CssToken::Semicolon),
            cssparser::Token::Comma => out.push(CssToken::Comma),
            cssparser::Token::IncludeMatch => {
                out.push(CssToken::Delim('~'));
                out.push(CssToken::Delim('='));
            }
            cssparser::Token::DashMatch => {
                out.push(CssToken::Delim('|'));
                out.push(CssToken::Delim('='));
            }
            cssparser::Token::PrefixMatch => {
                out.push(CssToken::Delim('^'));
                out.push(CssToken::Delim('='));
            }
            cssparser::Token::SuffixMatch => {
                out.push(CssToken::Delim('$'));
                out.push(CssToken::Delim('='));
            }
            cssparser::Token::SubstringMatch => {
                out.push(CssToken::Delim('*'));
                out.push(CssToken::Delim('='));
            }
            cssparser::Token::CDO => {}
            cssparser::Token::CDC => {}
            cssparser::Token::Delim(c) => out.push(CssToken::Delim(c)),
            cssparser::Token::Function(name) => {
                out.push(CssToken::Function(name.as_ref().to_owned()));
                let _ = parser.parse_nested_block(
                    |p| -> Result<(), cssparser::ParseError<()>> {
                        flatten(p, out);
                        Ok(())
                    },
                );
                out.push(CssToken::CloseParenthesis);
            }
            cssparser::Token::ParenthesisBlock => {
                out.push(CssToken::ParenthesisBlock);
                let _ = parser.parse_nested_block(
                    |p| -> Result<(), cssparser::ParseError<()>> {
                        flatten(p, out);
                        Ok(())
                    },
                );
                out.push(CssToken::CloseParenthesis);
            }
            cssparser::Token::SquareBracketBlock => {
                out.push(CssToken::SquareBracketBlock);
                let _ = parser.parse_nested_block(
                    |p| -> Result<(), cssparser::ParseError<()>> {
                        flatten(p, out);
                        Ok(())
                    },
                );
                out.push(CssToken::CloseSquareBracket);
            }
            cssparser::Token::CurlyBracketBlock => {
                out.push(CssToken::CurlyBracketBlock);
                let _ = parser.parse_nested_block(
                    |p| -> Result<(), cssparser::ParseError<()>> {
                        flatten(p, out);
                        Ok(())
                    },
                );
                out.push(CssToken::CloseCurlyBracket);
            }
            cssparser::Token::BadUrl(s) => out.push(CssToken::BadUrl(s.as_ref().to_owned())),
            cssparser::Token::BadString(s) => {
                out.push(CssToken::BadString(s.as_ref().to_owned()))
            }
            cssparser::Token::CloseParenthesis => out.push(CssToken::CloseParenthesis),
            cssparser::Token::CloseSquareBracket => out.push(CssToken::CloseSquareBracket),
            cssparser::Token::CloseCurlyBracket => out.push(CssToken::CloseCurlyBracket),
        }
    }
}

fn tokenize(source: &str) -> Vec<CssToken> {
    let mut parser = cssparser::Parser::new(source);
    let mut out = Vec::new();
    flatten(&mut parser, &mut out);
    out
}

fn parse_stylesheet(source: &str) -> Result<Vec<CssRule>, css::errors::PreciseParseError> {
    let context = ParserContext::new(false);
    let mut parser = TopLevelRuleParser::new(context);
    let mut input = TokenStream::new(tokenize(source));
    parser.parse_top_level_rule_list(&mut input)
}

fn custom_error(e: &css::errors::PreciseParseError) -> &CustomParseError {
    match &e.kind {
        ParseErrorKind::Custom(ce) => ce,
        other => panic!("expected a custom error, got {:?}", other),
    }
}

#[test]
fn a_simple_stylesheet_parses_in_source_order() {
    let rules = parse_stylesheet("a { } @media screen { b { } }").unwrap();
    assert_eq!(rules.len(), 2);
    assert!(matches!(&rules[0], CssRule::Style(_)));
    match &rules[1] {
        CssRule::Media(media) => {
            assert_eq!(media.media_queries.media_queries.len(), 1);
            assert_eq!(media.rules.0.len(), 1);
            assert!(matches!(&media.rules.0[0], CssRule::Style(_)));
        }
        other => panic!("expected a media rule, got {:?}", other),
    }
}

#[test]
fn charset_is_always_rejected() {
    let error = parse_stylesheet("@charset \"utf-8\"; a { }").unwrap_err();
    assert_eq!(*custom_error(&error), CustomParseError::UnexpectedCharsetAtRule);
}

#[test]
fn import_before_other_rules_is_accepted() {
    let rules = parse_stylesheet("@import \"a.css\"; b { }").unwrap();
    assert_eq!(rules.len(), 2);
    match &rules[0] {
        CssRule::Import(import) => assert_eq!(import.url.0, "a.css"),
        other => panic!("expected an import rule, got {:?}", other),
    }
}

#[test]
fn import_after_another_rule_fails_with_the_ordering_error() {
    let error = parse_stylesheet("b { } @import \"a.css\";").unwrap_err();
    assert_eq!(
        *custom_error(&error),
        CustomParseError::AtRuleImportMustBeBeforeAnyRuleExceptAtRuleCharset
    );
}

#[test]
fn import_after_a_failed_at_rule_is_still_rejected() {
    let error = parse_stylesheet("@media { a { } @import \"x\"; } @import \"a.css\";")
        .unwrap_err();
    assert_eq!(
        *custom_error(&error),
        CustomParseError::AtRuleImportMustBeBeforeAnyRuleExceptAtRuleCharset
    );
}

#[test]
fn a_malformed_rule_between_two_well_formed_rules_is_skipped() {
    let rules = parse_stylesheet("a { } @unknown-rule xyz; b { }").unwrap();
    assert_eq!(rules.len(), 2);
    match (&rules[0], &rules[1]) {
        (CssRule::Style(first), CssRule::Style(second)) => {
            assert_eq!(first.selectors.0[0].to_css_string(), "a");
            assert_eq!(second.selectors.0[0].to_css_string(), "b");
        }
        other => panic!("expected two style rules, got {:?}", other),
    }
}

#[test]
fn a_malformed_qualified_rule_is_skipped_too() {
    let rules = parse_stylesheet("a { } !!! ; b { }").unwrap();
    assert_eq!(rules.len(), 2);
    match (&rules[0], &rules[1]) {
        (CssRule::Style(first), CssRule::Style(second)) => {
            assert_eq!(first.selectors.0[0].to_css_string(), "a");
            assert_eq!(second.selectors.0[0].to_css_string(), "b");
        }
        other => panic!("expected two style rules, got {:?}", other),
    }
}

#[test]
fn a_malformed_rule_inside_a_nested_list_is_skipped() {
    let rules = parse_stylesheet("@media screen { a { } @nope x; b { } }").unwrap();
    match &rules[0] {
        CssRule::Media(media) => {
            assert_eq!(media.rules.0.len(), 2);
        }
        other => panic!("expected a media rule, got {:?}", other),
    }
}

#[test]
fn namespace_declarations_resolve_in_selectors() {
    let rules = parse_stylesheet("@namespace foo \"http://x\"; foo|div { }").unwrap();
    assert_eq!(rules.len(), 2);
    match &rules[0] {
        CssRule::Namespace(ns) => {
            assert_eq!(ns.prefix.as_ref().unwrap().0, "foo");
            assert_eq!(ns.url.0, "http://x");
        }
        other => panic!("expected a namespace rule, got {:?}", other),
    }
    match &rules[1] {
        CssRule::Style(style) => {
            let selector = &style.selectors.0[0];
            let type_selector = selector.first.type_selector.as_ref().unwrap();
            match &type_selector.namespace {
                NamespaceConstraint::Specific(prefix, url) => {
                    assert_eq!(prefix.0, "foo");
                    assert_eq!(url.0, "http://x");
                }
                other => panic!("expected a resolved namespace, got {:?}", other),
            }
        }
        other => panic!("expected a style rule, got {:?}", other),
    }
}

#[test]
fn a_second_namespace_after_a_style_rule_fails_with_the_ordering_error() {
    let error =
        parse_stylesheet("@namespace foo \"http://x\"; foo|div { } @namespace bar \"y\";")
            .unwrap_err();
    assert_eq!(
        *custom_error(&error),
        CustomParseError::AtRuleNamespaceMustBeBeforeAnyRuleExceptAtRuleCharsetAndAtRuleImport
    );
}

#[test]
fn percentage_values_round_trip_through_their_serialization() {
    let context = ParserContext::new(false);
    let mut input = TokenStream::new(tokenize("37.5%"));
    let value = PercentageUnit::<CssUnsignedNumber>::parse_one_outside_calc_function(
        &context,
        &mut input,
    )
    .unwrap();
    let percentage = match &value {
        css::expressions::CalculablePropertyValue::Constant(p) => *p,
        other => panic!("expected a constant percentage, got {:?}", other),
    };
    let serialized = percentage.to_css_string();
    assert_eq!(serialized, "37.5%");
    let mut reparse_input = TokenStream::new(tokenize(serialized.as_str()));
    let reparsed = PercentageUnit::<CssUnsignedNumber>::parse_one_outside_calc_function(
        &context,
        &mut reparse_input,
    )
    .unwrap();
    assert_eq!(reparsed, value);
}

#[test]
fn declarations_parse_through_the_expression_machinery() {
    let rules = parse_stylesheet("a { width: 50%; height: calc(1 + 2); }").unwrap();
    match &rules[0] {
        CssRule::Style(style) => {
            let declarations = &style.property_declarations.0;
            assert_eq!(declarations.len(), 2);
            assert_eq!(declarations[0].name, "width");
            assert!(matches!(
                &declarations[0].value,
                css::properties::SpecifiedValue::Dimension(
                    css::expressions::CalculablePropertyValue::Constant(PercentageUnit(
                        CssUnsignedNumber(500_000)
                    ))
                )
            ));
            assert_eq!(declarations[1].name, "height");
            assert!(matches!(
                &declarations[1].value,
                css::properties::SpecifiedValue::Dimension(
                    css::expressions::CalculablePropertyValue::Calc(_)
                )
            ));
        }
        other => panic!("expected a style rule, got {:?}", other),
    }
}

#[test]
fn a_repeated_declaration_name_keeps_the_last_write_in_the_first_position() {
    let rules = parse_stylesheet("a { width: 10%; height: 20%; width: 30%; }").unwrap();
    match &rules[0] {
        CssRule::Style(style) => {
            let declarations = &style.property_declarations.0;
            assert_eq!(declarations.len(), 2);
            assert_eq!(declarations[0].name, "width");
            assert!(matches!(
                &declarations[0].value,
                css::properties::SpecifiedValue::Dimension(
                    css::expressions::CalculablePropertyValue::Constant(PercentageUnit(
                        CssUnsignedNumber(300_000)
                    ))
                )
            ));
            assert_eq!(declarations[1].name, "height");
        }
        other => panic!("expected a style rule, got {:?}", other),
    }
}

#[test]
fn important_is_rejected_inside_keyframes() {
    // The malformed keyframe is skipped at its boundary; the rule itself
    // survives with no keyframes.
    let rules =
        parse_stylesheet("@keyframes slide { from { width: 10% !important; } }").unwrap();
    assert_eq!(rules.len(), 1);
    match &rules[0] {
        CssRule::Keyframes(rule) => assert_eq!(rule.keyframes.len(), 0),
        other => panic!("expected a keyframes rule, got {:?}", other),
    }
    let accepted = parse_stylesheet("a { width: 10% !important; }").unwrap();
    match &accepted[0] {
        CssRule::Style(style) => {
            assert!(style.property_declarations.0[0].important);
        }
        other => panic!("expected a style rule, got {:?}", other),
    }
}

#[test]
fn font_face_parses_feature_settings() {
    let rules = parse_stylesheet(
        "@font-face { font-family: x; font-feature-settings: \"swsh\" 2, \"liga\" off; }",
    )
    .unwrap();
    match &rules[0] {
        CssRule::FontFace(font_face) => {
            assert_eq!(font_face.font_feature_settings.len(), 2);
            assert_eq!(font_face.font_feature_settings[0].0, "swsh");
            assert_eq!(font_face.font_feature_settings[0].1, 2);
            assert_eq!(font_face.font_feature_settings[1].0, "liga");
            assert_eq!(font_face.font_feature_settings[1].1, 0);
        }
        other => panic!("expected a font-face rule, got {:?}", other),
    }
}

#[test]
fn font_feature_values_blocks_parse() {
    let rules = parse_stylesheet(
        "@font-feature-values Jupiter { @swash { delicate: 1; flowing: 2; } }",
    )
    .unwrap();
    match &rules[0] {
        CssRule::FontFeatureValues(rule) => {
            assert_eq!(rule.family_names.len(), 1);
            assert_eq!(rule.family_names[0].name, "Jupiter");
            assert_eq!(rule.swash.len(), 2);
            assert_eq!(rule.swash[0].name, "delicate");
            assert_eq!(rule.swash[0].value, vec![1]);
        }
        other => panic!("expected a font-feature-values rule, got {:?}", other),
    }
}

#[test]
fn the_parser_state_advances_monotonically() {
    let context = ParserContext::new(false);
    let mut parser = TopLevelRuleParser::new(context);
    assert_eq!(parser.state, State::Start);
    let mut input = TokenStream::new(tokenize("@import \"a.css\"; b { }"));
    parser.parse_top_level_rule_list(&mut input).unwrap();
    assert_eq!(parser.state, State::Body);
}

#[test]
fn supports_and_document_rules_parse_structurally() {
    let rules = parse_stylesheet(
        "@supports (display: grid) { a { } } @-moz-document url-prefix(\"http://x\") { b { } }",
    )
    .unwrap();
    assert_eq!(rules.len(), 2);
    assert!(matches!(&rules[0], CssRule::Supports(_)));
    match &rules[1] {
        CssRule::Document(doc) => {
            assert_eq!(doc.vendor_prefix, Some(css::selectors::VendorPrefix::moz));
            assert_eq!(doc.condition.0.len(), 1);
            assert!(matches!(
                &doc.condition.0[0],
                css::rules::UrlMatchingFunction::UrlPrefix(p) if p == "http://x"
            ));
        }
        other => panic!("expected a document rule, got {:?}", other),
    }
}

#[test]
fn viewport_vendor_prefixes_dispatch() {
    let rules = parse_stylesheet("@-ms-viewport { width: 100%; }").unwrap();
    match &rules[0] {
        CssRule::Viewport(viewport) => {
            assert_eq!(viewport.vendor_prefix, Some(css::selectors::VendorPrefix::ms));
        }
        other => panic!("expected a viewport rule, got {:?}", other),
    }
}

#[test]
fn page_rules_take_a_selector_pseudo_class_and_declarations() {
    let rules = parse_stylesheet("@page :first { width: 10%; }").unwrap();
    match &rules[0] {
        CssRule::Page(page) => {
            assert_eq!(
                page.page_selector_pseudo_class,
                Some(css::rules::PageSelectorPseudoClass::First)
            );
            assert_eq!(page.property_declarations.0.len(), 1);
        }
        other => panic!("expected a page rule, got {:?}", other),
    }
}

#[test]
fn media_query_lists_split_on_commas() {
    let rules = parse_stylesheet("@media screen, print { }").unwrap();
    match &rules[0] {
        CssRule::Media(media) => {
            assert_eq!(media.media_queries.media_queries.len(), 2);
        }
        other => panic!("expected a media rule, got {:?}", other),
    }
}

#[test]
fn an_empty_supports_condition_invalidates_the_rule() {
    let rules = parse_stylesheet("@supports { a { } }").unwrap();
    assert_eq!(rules.len(), 0);
}

#[test]
fn attr_expressions_parse_inside_values() {
    let context = ParserContext::new(false);
    let mut input = TokenStream::new(tokenize("attr(data-count em, 4)"));
    let value =
        CssUnsignedNumber::parse_one_outside_calc_function(&context, &mut input).unwrap();
    match value {
        css::expressions::CalculablePropertyValue::Attr(attr) => {
            assert_eq!(attr.0.attribute, "data-count");
            assert_eq!(attr.0.type_or_unit, Some("em".to_owned()));
            assert!(attr.0.fallback.is_some());
        }
        other => panic!("expected an attr value, got {:?}", other),
    }
}

#[test]
fn counter_style_rules_parse_from_text() {
    let rules =
        parse_stylesheet("@counter-style thumbs { system: cyclic; symbols: a; }").unwrap();
    match &rules[0] {
        CssRule::CounterStyle(rule) => {
            assert_eq!(rule.name, css::rules::CounterStyleIdent("thumbs".to_owned()));
            assert_eq!(rule.system, Some(css::errors::System::Cyclic));
        }
        other => panic!("expected a counter-style rule, got {:?}", other),
    }
}

#[test]
fn keyframes_rules_parse_from_text() {
    let rules =
        parse_stylesheet("@-webkit-keyframes slide { from { width: 10%; } to { width: 90%; } }")
            .unwrap();
    match &rules[0] {
        CssRule::Keyframes(rule) => {
            assert_eq!(rule.vendor_prefix, Some(css::selectors::VendorPrefix::webkit));
            assert_eq!(rule.name, css::rules::KeyframesName::Ident("slide".to_owned()));
            assert_eq!(rule.keyframes.len(), 2);
        }
        other => panic!("expected a keyframes rule, got {:?}", other),
    }
}

#[test]
fn import_urls_may_be_quoted_inside_the_url_function() {
    let rules = parse_stylesheet("@import url(\"a.css\"); @import url(b.css); c { }").unwrap();
    assert_eq!(rules.len(), 3);
    match (&rules[0], &rules[1]) {
        (CssRule::Import(first), CssRule::Import(second)) => {
            assert_eq!(first.url.0, "a.css");
            assert_eq!(second.url.0, "b.css");
        }
        other => panic!("expected two import rules, got {:?}", other),
    }
}

#[test]
fn a_malformed_keyframe_is_skipped_and_later_keyframes_kept() {
    let rules = parse_stylesheet(
        "@keyframes slide { from { } 150% { } to { width: 90%; } }",
    )
    .unwrap();
    match &rules[0] {
        CssRule::Keyframes(rule) => {
            assert_eq!(rule.keyframes.len(), 2);
        }
        other => panic!("expected a keyframes rule, got {:?}", other),
    }
}

#[test]
fn a_repeated_namespace_prefix_takes_the_last_declaration() {
    let rules = parse_stylesheet(
        "@namespace foo \"http://a\"; @namespace foo \"http://b\"; foo|div { }",
    )
    .unwrap();
    assert_eq!(rules.len(), 3);
    match &rules[2] {
        CssRule::Style(style) => {
            let type_selector = style.selectors.0[0].first.type_selector.as_ref().unwrap();
            match &type_selector.namespace {
                css::selectors::NamespaceConstraint::Specific(_, url) => {
                    assert_eq!(url.0, "http://b");
                }
                other => panic!("expected a resolved namespace, got {:?}", other),
            }
        }
        other => panic!("expected a style rule, got {:?}", other),
    }
}

#[test]
fn a_bare_zero_is_not_a_percentage() {
    let context = ParserContext::new(false);
    let mut input = TokenStream::new(tokenize("0"));
    let error = css::units::PercentageUnit::<CssUnsignedNumber>::parse_one_outside_calc_function(
        &context,
        &mut input,
    )
    .unwrap_err();
    assert_eq!(
        *custom_error(&error),
        CustomParseError::CouldNotParseDimensionLessNumber(0)
    );
    let zero_tokens = tokenize("0");
    assert_eq!(
        <css::units::PercentageUnit<CssUnsignedNumber> as css::expressions::Unit>
            ::from_raw_css_for_var_expression_evaluation(&zero_tokens, true),
        None
    );
}

#[test]
fn a_percentage_inside_calc_is_a_constant_leaf() {
    let context = ParserContext::new(false);
    let mut input = TokenStream::new(tokenize("calc(50% + 25%)"));
    let value = css::units::PercentageUnit::<CssUnsignedNumber>::parse_one_outside_calc_function(
        &context,
        &mut input,
    )
    .unwrap();
    match value {
        css::expressions::CalculablePropertyValue::Calc(calc) => match &*calc.0 {
            css::expressions::CalcExpression::Sum(lhs, _) => {
                assert!(matches!(
                    &**lhs,
                    css::expressions::CalcExpression::Value(v)
                        if matches!(
                            &**v,
                            css::expressions::CalculablePropertyValue::Constant(
                                css::units::PercentageUnit(CssUnsignedNumber(500_000))
                            )
                        )
                ));
            }
            other => panic!("expected a sum, got {:?}", other),
        },
        other => panic!("expected a calc value, got {:?}", other),
    }
}

#[test]
fn feature_tags_are_measured_in_bytes() {
    let mut input = TokenStream::new(vec![
        css::tokens::CssToken::QuotedString("\u{e9}\u{e9}".to_owned()),
        css::tokens::CssToken::WhiteSpace,
        css::tokens::CssToken::Number { units: 1_000_000, int_value: Some(1) },
    ]);
    let error = css::font_face::FontFeatureSetting::parse(&mut input).unwrap_err();
    assert_eq!(
        *custom_error(&error),
        CustomParseError::FontFeatureSettingOpenTypeFeatureTagMustBePrintableAscii(
            "\u{e9}\u{e9}".to_owned()
        )
    );
}

#[test]
fn document_conditions_tie_to_their_tokens() {
    let rules = parse_stylesheet("@-moz-document url(http://x) { a { } }").unwrap();
    match &rules[0] {
        CssRule::Document(doc) => {
            assert_eq!(doc.condition.0.len(), 1);
            assert!(matches!(
                &doc.condition.0[0],
                css::rules::UrlMatchingFunction::Url(u) if u == "http://x"
            ));
        }
        other => panic!("expected a document rule, got {:?}", other),
    }
}
