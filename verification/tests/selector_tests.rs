use css::errors::CustomParseError;
use css::errors::ParseErrorKind;
use css::errors::SelectorParseError;
use css::namespaces::NamespacePrefix;
use css::namespaces::Namespaces;
use css::namespaces::NamespaceUrl;
use css::parsers::our_selector_parser::OurSelectorParser;
use css::selectors::NamespaceConstraint;
use css::selectors::NonTreeStructuralPseudoClass;
use css::selectors::PseudoElement;
use css::selectors::SelectorRestriction;
use css::selectors::VendorPrefix;
use css::selectors::VendorPrefixablePseudoClassName;
use css::selectors::VendorPrefixablePseudoElementName;
use css::tokens::CssToken;
use css::tokens::TokenStream;

fn ident(s: &str) -> CssToken {
    CssToken::Ident(s.to_owned())
}

fn stream(tokens: Vec<CssToken>) -> TokenStream {
    TokenStream::new(tokens)
}

fn empty_namespaces() -> Namespaces {
    Namespaces::empty()
}

#[test]
fn duplicate_selectors_collapse_to_one() {
    let namespaces = empty_namespaces();
    let pc: Vec<(VendorPrefixablePseudoClassName, VendorPrefix)> = Vec::new();
    let pe: Vec<(VendorPrefixablePseudoElementName, VendorPrefix)> = Vec::new();
    let parser = OurSelectorParser {
        namespaces: &namespaces,
        applyVendorPrefixToPseudoClasses: &pc,
        applyVendorPrefixToPseudoElements: &pe,
    };
    let mut input = stream(vec![
        ident("a"),
        CssToken::Comma,
        CssToken::WhiteSpace,
        ident("a"),
        CssToken::Comma,
        ident("a"),
    ]);
    let deduplicated = parser.parse(&mut input).unwrap();
    assert_eq!(deduplicated.0.len(), 1);
    assert_eq!(deduplicated.0[0].to_css_string(), "a");
}

#[test]
fn first_seen_order_is_kept() {
    let namespaces = empty_namespaces();
    let pc: Vec<(VendorPrefixablePseudoClassName, VendorPrefix)> = Vec::new();
    let pe: Vec<(VendorPrefixablePseudoElementName, VendorPrefix)> = Vec::new();
    let parser = OurSelectorParser {
        namespaces: &namespaces,
        applyVendorPrefixToPseudoClasses: &pc,
        applyVendorPrefixToPseudoElements: &pe,
    };
    let mut input = stream(vec![
        ident("a"),
        CssToken::Comma,
        ident("b"),
        CssToken::Comma,
        ident("a"),
    ]);
    let deduplicated = parser.parse(&mut input).unwrap();
    assert_eq!(deduplicated.0.len(), 2);
    assert_eq!(deduplicated.0[0].to_css_string(), "a");
    assert_eq!(deduplicated.0[1].to_css_string(), "b");
}

#[test]
fn an_empty_selector_list_is_rejected() {
    let namespaces = empty_namespaces();
    let pc: Vec<(VendorPrefixablePseudoClassName, VendorPrefix)> = Vec::new();
    let pe: Vec<(VendorPrefixablePseudoElementName, VendorPrefix)> = Vec::new();
    let parser = OurSelectorParser {
        namespaces: &namespaces,
        applyVendorPrefixToPseudoClasses: &pc,
        applyVendorPrefixToPseudoElements: &pe,
    };
    let mut input = stream(vec![CssToken::CurlyBracketBlock]);
    let error = parser.parse(&mut input).unwrap_err();
    assert_eq!(error.kind, ParseErrorKind::Custom(CustomParseError::ThereAreNoSelectors));
}

#[test]
fn scope_pseudo_class_is_obsolete() {
    let namespaces = empty_namespaces();
    let pc: Vec<(VendorPrefixablePseudoClassName, VendorPrefix)> = Vec::new();
    let pe: Vec<(VendorPrefixablePseudoElementName, VendorPrefix)> = Vec::new();
    let parser = OurSelectorParser {
        namespaces: &namespaces,
        applyVendorPrefixToPseudoClasses: &pc,
        applyVendorPrefixToPseudoElements: &pe,
    };
    let result = parser.parse_non_ts_pseudo_class("scope".to_owned());
    assert!(matches!(
        result,
        Err(SelectorParseError::Custom(b))
            if *b == CustomParseError::NonTreeStructuralPseudoClassScopeIsObsoleteAsOfFirefox55
    ));
}

#[test]
fn unknown_pseudo_class_is_unsupported() {
    let namespaces = empty_namespaces();
    let pc: Vec<(VendorPrefixablePseudoClassName, VendorPrefix)> = Vec::new();
    let pe: Vec<(VendorPrefixablePseudoElementName, VendorPrefix)> = Vec::new();
    let parser = OurSelectorParser {
        namespaces: &namespaces,
        applyVendorPrefixToPseudoClasses: &pc,
        applyVendorPrefixToPseudoElements: &pe,
    };
    let result = parser.parse_non_ts_pseudo_class("sparkly".to_owned());
    assert!(matches!(
        result,
        Err(SelectorParseError::Custom(b))
            if *b == CustomParseError::UnsupportedPseudoClassOrElement("sparkly".to_owned())
    ));
}

#[test]
fn vendor_prefix_table_directs_pseudo_classes() {
    let namespaces = empty_namespaces();
    let pc: Vec<(VendorPrefixablePseudoClassName, VendorPrefix)> =
        vec![(VendorPrefixablePseudoClassName::fullscreen, VendorPrefix::moz)];
    let pe: Vec<(VendorPrefixablePseudoElementName, VendorPrefix)> = Vec::new();
    let parser = OurSelectorParser {
        namespaces: &namespaces,
        applyVendorPrefixToPseudoClasses: &pc,
        applyVendorPrefixToPseudoElements: &pe,
    };
    let result = parser.parse_non_ts_pseudo_class("fullscreen".to_owned());
    assert_eq!(
        result,
        Ok(NonTreeStructuralPseudoClass::Fullscreen(Some(VendorPrefix::moz)))
    );
    let plain = parser.parse_non_ts_pseudo_class("hover".to_owned());
    assert_eq!(plain, Ok(NonTreeStructuralPseudoClass::Hover));
}

#[test]
fn pseudo_elements_parse_and_serialize() {
    let namespaces = empty_namespaces();
    let pc: Vec<(VendorPrefixablePseudoClassName, VendorPrefix)> = Vec::new();
    let pe: Vec<(VendorPrefixablePseudoElementName, VendorPrefix)> = Vec::new();
    let parser = OurSelectorParser {
        namespaces: &namespaces,
        applyVendorPrefixToPseudoClasses: &pc,
        applyVendorPrefixToPseudoElements: &pe,
    };
    assert_eq!(parser.parse_pseudo_element("before".to_owned()), Ok(PseudoElement::Before));
    let mut input = stream(vec![ident("a"), CssToken::Colon, CssToken::Colon, ident("before")]);
    let deduplicated = parser.parse(&mut input).unwrap();
    assert_eq!(deduplicated.0[0].to_css_string(), "a::before");
}

#[test]
fn pseudo_elements_are_invalid_where_the_context_disallows_them() {
    let namespaces = empty_namespaces();
    let pc: Vec<(VendorPrefixablePseudoClassName, VendorPrefix)> = Vec::new();
    let pe: Vec<(VendorPrefixablePseudoElementName, VendorPrefix)> = Vec::new();
    let parser = OurSelectorParser {
        namespaces: &namespaces,
        applyVendorPrefixToPseudoClasses: &pc,
        applyVendorPrefixToPseudoElements: &pe,
    };
    let mut input = stream(vec![ident("a"), CssToken::Colon, CssToken::Colon, ident("before")]);
    let error = parser
        .parse_internal(&mut input, SelectorRestriction::DisallowPseudoElements)
        .unwrap_err();
    assert_eq!(
        error.kind,
        ParseErrorKind::Custom(CustomParseError::SelectorIsInvalidInContext(
            "a::before".to_owned()
        ))
    );
}

#[test]
fn an_undeclared_namespace_prefix_is_an_error() {
    let namespaces = empty_namespaces();
    let pc: Vec<(VendorPrefixablePseudoClassName, VendorPrefix)> = Vec::new();
    let pe: Vec<(VendorPrefixablePseudoElementName, VendorPrefix)> = Vec::new();
    let parser = OurSelectorParser {
        namespaces: &namespaces,
        applyVendorPrefixToPseudoClasses: &pc,
        applyVendorPrefixToPseudoElements: &pe,
    };
    let mut input = stream(vec![ident("foo"), CssToken::Delim('|'), ident("div")]);
    let error = parser.parse(&mut input).unwrap_err();
    assert!(matches!(
        error.kind,
        ParseErrorKind::Custom(CustomParseError::SpecificSelectorParseError(
            SelectorParseError::ExpectedNamespaceFor(p)
        )) if p == "foo"
    ));
}

#[test]
fn a_declared_namespace_prefix_resolves() {
    let mut namespaces = empty_namespaces();
    namespaces.update(
        Some(&NamespacePrefix("foo".to_owned())),
        &NamespaceUrl("http://x".to_owned()),
    );
    let pc: Vec<(VendorPrefixablePseudoClassName, VendorPrefix)> = Vec::new();
    let pe: Vec<(VendorPrefixablePseudoElementName, VendorPrefix)> = Vec::new();
    let parser = OurSelectorParser {
        namespaces: &namespaces,
        applyVendorPrefixToPseudoClasses: &pc,
        applyVendorPrefixToPseudoElements: &pe,
    };
    let mut input = stream(vec![ident("foo"), CssToken::Delim('|'), ident("div")]);
    let deduplicated = parser.parse(&mut input).unwrap();
    let selector = &deduplicated.0[0];
    let type_selector = selector.first.type_selector.as_ref().unwrap();
    assert!(matches!(
        &type_selector.namespace,
        NamespaceConstraint::Specific(p, u) if p.0 == "foo" && u.0 == "http://x"
    ));
    assert_eq!(selector.to_css_string(), "foo|div");
}

#[test]
fn combinators_serialize_canonically() {
    let namespaces = empty_namespaces();
    let pc: Vec<(VendorPrefixablePseudoClassName, VendorPrefix)> = Vec::new();
    let pe: Vec<(VendorPrefixablePseudoElementName, VendorPrefix)> = Vec::new();
    let parser = OurSelectorParser {
        namespaces: &namespaces,
        applyVendorPrefixToPseudoClasses: &pc,
        applyVendorPrefixToPseudoElements: &pe,
    };
    let mut input = stream(vec![
        ident("a"),
        CssToken::WhiteSpace,
        CssToken::Delim('>'),
        CssToken::WhiteSpace,
        ident("b"),
        CssToken::WhiteSpace,
        ident("c"),
        CssToken::Delim('.'),
        ident("x"),
    ]);
    let deduplicated = parser.parse(&mut input).unwrap();
    assert_eq!(deduplicated.0.len(), 1);
    assert_eq!(deduplicated.0[0].to_css_string(), "a > b c.x");
}

#[test]
fn lang_pseudo_classes_parse_and_serialize() {
    let namespaces = empty_namespaces();
    let pc: Vec<(VendorPrefixablePseudoClassName, VendorPrefix)> = Vec::new();
    let pe: Vec<(VendorPrefixablePseudoElementName, VendorPrefix)> = Vec::new();
    let parser = OurSelectorParser {
        namespaces: &namespaces,
        applyVendorPrefixToPseudoClasses: &pc,
        applyVendorPrefixToPseudoElements: &pe,
    };
    let mut input = stream(vec![
        ident("a"),
        CssToken::Colon,
        CssToken::Function("lang".to_owned()),
        ident("en"),
        CssToken::Comma,
        ident("fr"),
        CssToken::CloseParenthesis,
    ]);
    let deduplicated = parser.parse(&mut input).unwrap();
    assert_eq!(deduplicated.0[0].to_css_string(), "a:lang(en,fr)");
}

#[test]
fn id_and_universal_selectors_serialize() {
    let namespaces = empty_namespaces();
    let pc: Vec<(VendorPrefixablePseudoClassName, VendorPrefix)> = Vec::new();
    let pe: Vec<(VendorPrefixablePseudoElementName, VendorPrefix)> = Vec::new();
    let parser = OurSelectorParser {
        namespaces: &namespaces,
        applyVendorPrefixToPseudoClasses: &pc,
        applyVendorPrefixToPseudoElements: &pe,
    };
    let mut input = stream(vec![
        CssToken::Delim('*'),
        CssToken::Comma,
        CssToken::IdHash("main".to_owned()),
        CssToken::Delim('.'),
        ident("wide"),
    ]);
    let deduplicated = parser.parse(&mut input).unwrap();
    assert_eq!(deduplicated.0.len(), 2);
    assert_eq!(deduplicated.0[0].to_css_string(), "*");
    assert_eq!(deduplicated.0[1].to_css_string(), "#main.wide");
}
