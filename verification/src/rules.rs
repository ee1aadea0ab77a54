//! The rule tree: the tagged union of rule kinds the dispatcher produces,
//! and the leaf prelude grammars whose structural shape the dispatcher
//! depends on.

use vstd::prelude::*;
use crate::ascii::ascii_case_insensitive_eq;
use crate::ascii::eq_ignore_ascii_case_seq;
use crate::errors::CustomParseError;
use crate::errors::ParseErrorKind;
use crate::errors::PreciseParseError;
use crate::errors::System;
use crate::namespaces::NamespacePrefix;
use crate::namespaces::NamespaceUrl;
use crate::properties::PropertyDeclarations;
use crate::selectors::DeduplicatedSelectors;
use crate::selectors::VendorPrefix;
use crate::tokens::CssToken;
use crate::tokens::TokenStream;

verus! {

/// A stylesheet URL, kept as written.
#[derive(Debug, PartialEq)]
pub struct SpecifiedUrl(pub String);

/// One media query, kept structurally as its prelude tokens.
#[derive(Debug, PartialEq)]
pub struct MediaQuery {
    pub tokens: Vec<CssToken>,
}

/// A comma-separated media query list.
#[derive(Debug, PartialEq)]
pub struct MediaList {
    pub media_queries: Vec<MediaQuery>,
}

/// An `@supports` condition, kept structurally as its prelude tokens.
#[derive(Debug, PartialEq)]
pub struct SupportsCondition {
    pub tokens: Vec<CssToken>,
}

/// A URL matching function of `@document`.
#[derive(Debug, PartialEq)]
pub enum UrlMatchingFunction {
    Url(String),
    UrlPrefix(String),
    Domain(String),
    RegExp(String),
}

/// The condition of `@document`: one or more URL matching functions.
#[derive(Debug, PartialEq)]
pub struct DocumentCondition(pub Vec<UrlMatchingFunction>);

/// The name of an `@keyframes` rule.
#[derive(Debug, PartialEq)]
pub enum KeyframesName {
    Ident(String),
    QuotedString(String),
}

/// A font family name of `@font-feature-values`.
#[derive(Debug, PartialEq)]
pub struct FamilyName {
    pub name: String,
}

/// A named counter style.
#[derive(Debug, PartialEq)]
pub struct CounterStyleIdent(pub String);

/// The page selector pseudo-class of `@page`.
#[derive(Debug, Clone, Copy, PartialEq, Eq, Structural)]
pub enum PageSelectorPseudoClass {
    First,
    Left,
    Right,
    Blank,
}

/// One `ident: integer+` declaration of a `@font-feature-values` block.
#[derive(Debug, PartialEq)]
pub struct FontFeatureValuesDeclaration {
    pub name: String,
    pub value: Vec<u32>,
}

/// An `@font-feature-values` rule: family names and one declaration list
/// per feature type.
#[derive(Debug, PartialEq)]
pub struct FontFeatureValuesAtRule {
    pub family_names: Vec<FamilyName>,
    pub swash: Vec<FontFeatureValuesDeclaration>,
    pub stylistic: Vec<FontFeatureValuesDeclaration>,
    pub ornaments: Vec<FontFeatureValuesDeclaration>,
    pub annotation: Vec<FontFeatureValuesDeclaration>,
    pub character_variant: Vec<FontFeatureValuesDeclaration>,
    pub styleset: Vec<FontFeatureValuesDeclaration>,
}

/// An `@counter-style` rule, with the declarations its validation reads.
#[derive(Debug, PartialEq)]
pub struct CounterStyleAtRule {
    pub name: CounterStyleIdent,
    pub system: Option<System>,
    pub symbols: Option<Vec<String>>,
    pub has_additive_symbols: bool,
}

/// An `@font-face` rule: its `font-feature-settings` descriptor, parsed,
/// and the remaining declarations.
#[derive(Debug, PartialEq)]
pub struct FontFaceAtRule {
    pub font_feature_settings: Vec<crate::font_face::FontFeatureSetting>,
    pub property_declarations: PropertyDeclarations,
}

#[derive(Debug, PartialEq)]
pub struct ImportAtRule {
    pub url: SpecifiedUrl,
    pub media_list: MediaList,
}

#[derive(Debug, PartialEq)]
pub struct NamespaceAtRule {
    pub prefix: Option<NamespacePrefix>,
    pub url: NamespaceUrl,
}

#[derive(Debug, PartialEq)]
pub struct StyleRule {
    pub selectors: DeduplicatedSelectors,
    pub property_declarations: PropertyDeclarations,
}

#[derive(Debug, PartialEq)]
pub struct MediaAtRule {
    pub media_queries: MediaList,
    pub rules: CssRules,
}

#[derive(Debug, PartialEq)]
pub struct SupportsAtRule {
    pub condition: SupportsCondition,
    pub rules: CssRules,
}

#[derive(Debug, PartialEq)]
pub struct PageAtRule {
    pub page_selector_pseudo_class: Option<PageSelectorPseudoClass>,
    pub property_declarations: PropertyDeclarations,
}

#[derive(Debug, PartialEq)]
pub struct KeyframesAtRule {
    pub vendor_prefix: Option<VendorPrefix>,
    pub name: KeyframesName,
    pub keyframes: Vec<crate::parsers::keyframe_list_parser::Keyframe>,
}

#[derive(Debug, PartialEq)]
pub struct DocumentAtRule {
    pub vendor_prefix: Option<VendorPrefix>,
    pub condition: DocumentCondition,
    pub rules: CssRules,
}

#[derive(Debug, PartialEq)]
pub struct ViewportAtRule {
    pub vendor_prefix: Option<VendorPrefix>,
    pub property_declarations: PropertyDeclarations,
}

/// One parsed rule: the tagged union the dispatcher produces.
#[derive(Debug, PartialEq)]
pub enum CssRule {
    Import(ImportAtRule),
    Namespace(NamespaceAtRule),
    Style(StyleRule),
    Media(MediaAtRule),
    Supports(SupportsAtRule),
    Page(PageAtRule),
    Keyframes(KeyframesAtRule),
    FontFace(FontFaceAtRule),
    FontFeatureValues(FontFeatureValuesAtRule),
    CounterStyle(CounterStyleAtRule),
    Document(DocumentAtRule),
    Viewport(ViewportAtRule),
}

/// An ordered rule list, source order preserved.
#[derive(Debug, PartialEq)]
pub struct CssRules(pub Vec<CssRule>);

impl CounterStyleIdent {
    /// Parses a counter style name for `@counter-style` itself, where
    /// `none`, `decimal` and `disc` may not be redefined.
    pub fn parseForCounterStyleAtRule(input: &mut TokenStream) -> (r: Result<
        CounterStyleIdent,
        PreciseParseError,
    >)
        requires
            old(input).wf(),
        ensures
            final(input).wf(),
            final(input).tokens@ == old(input).tokens@,
            old(input).pos <= final(input).pos,
            ({
                let j = old(input).spec_next_pos();
                let toks = old(input).tokens@;
                j < toks.len() ==> (toks[j] matches CssToken::Ident(s) ==> {
                    &&& eq_ignore_ascii_case_seq(s@, "none"@) ==> (r matches Err(e) && e.kind
                        == ParseErrorKind::Custom(
                        CustomParseError::NoneIsNotAllowedInACounterStyleIdent,
                    ))
                    &&& !eq_ignore_ascii_case_seq(s@, "none"@) && (eq_ignore_ascii_case_seq(
                        s@,
                        "decimal"@,
                    ) || eq_ignore_ascii_case_seq(s@, "disc"@)) ==> (r matches Err(e) && e.kind
                        == ParseErrorKind::Custom(
                        CustomParseError::DecimalOrDiscIsNotAllowedInACounterStyleIdentInACounterStyleAtRule,
                    ))
                    &&& !eq_ignore_ascii_case_seq(s@, "none"@) && !eq_ignore_ascii_case_seq(
                        s@,
                        "decimal"@,
                    ) && !eq_ignore_ascii_case_seq(s@, "disc"@) ==> (r matches Ok(name) && name.0@
                        == s@)
                })
            }),
    {
        let name = match input.expect_ident() {
            Ok(n) => n,
            Err(e) => {
                return Err(e);
            },
        };
        if ascii_case_insensitive_eq(name.as_str(), "none") {
            Err(input.new_custom_error(CustomParseError::NoneIsNotAllowedInACounterStyleIdent))
        } else if ascii_case_insensitive_eq(name.as_str(), "decimal")
            || ascii_case_insensitive_eq(name.as_str(), "disc") {
            Err(
                input.new_custom_error(
                    CustomParseError::DecimalOrDiscIsNotAllowedInACounterStyleIdentInACounterStyleAtRule,
                ),
            )
        } else {
            Ok(CounterStyleIdent(name))
        }
    }
}

/// The system a counter style effectively uses: `symbolic` where none was
/// declared.
pub open spec fn effective_counter_style_system(system: Option<System>) -> System {
    match system {
        None => System::Symbolic,
        Some(s) => s,
    }
}

/// The cross-descriptor validity rule of `@counter-style`: symbol-based
/// systems need symbols (alphabetic and numeric at least two), the additive
/// system needs additive symbols, and `extends` allows neither.
pub open spec fn counter_style_invariant(rule: CounterStyleAtRule) -> bool {
    match effective_counter_style_system(rule.system) {
        System::Cyclic | System::Symbolic | System::Fixed => rule.symbols matches Some(sy)
            && sy@.len() >= 1,
        System::Alphabetic | System::Numeric => rule.symbols matches Some(sy) && sy@.len() >= 2,
        System::Additive => rule.has_additive_symbols,
        System::Extends => rule.symbols is None && !rule.has_additive_symbols,
    }
}

/// The descriptor names `@counter-style` accepts.
pub open spec fn spec_is_counter_style_descriptor(name: Seq<char>) -> bool {
    ||| eq_ignore_ascii_case_seq(name, "system"@)
    ||| eq_ignore_ascii_case_seq(name, "symbols"@)
    ||| eq_ignore_ascii_case_seq(name, "additive-symbols"@)
    ||| eq_ignore_ascii_case_seq(name, "negative"@)
    ||| eq_ignore_ascii_case_seq(name, "prefix"@)
    ||| eq_ignore_ascii_case_seq(name, "suffix"@)
    ||| eq_ignore_ascii_case_seq(name, "range"@)
    ||| eq_ignore_ascii_case_seq(name, "pad"@)
    ||| eq_ignore_ascii_case_seq(name, "fallback"@)
    ||| eq_ignore_ascii_case_seq(name, "speak-as"@)
}

fn is_counter_style_descriptor(name: &str) -> (r: bool)
    ensures
        r == spec_is_counter_style_descriptor(name@),
{
    ascii_case_insensitive_eq(name, "system") || ascii_case_insensitive_eq(name, "symbols")
        || ascii_case_insensitive_eq(name, "additive-symbols") || ascii_case_insensitive_eq(
        name,
        "negative",
    ) || ascii_case_insensitive_eq(name, "prefix") || ascii_case_insensitive_eq(name, "suffix")
        || ascii_case_insensitive_eq(name, "range") || ascii_case_insensitive_eq(name, "pad")
        || ascii_case_insensitive_eq(name, "fallback") || ascii_case_insensitive_eq(
        name,
        "speak-as",
    )
}

fn parse_counter_style_system(input: &mut TokenStream) -> (r: Result<System, PreciseParseError>)
    requires
        old(input).wf(),
    ensures
        final(input).wf(),
        final(input).tokens@ == old(input).tokens@,
        old(input).pos <= final(input).pos,
{
    let word = match input.expect_ident() {
        Ok(w) => w,
        Err(e) => {
            return Err(e);
        },
    };
    if ascii_case_insensitive_eq(word.as_str(), "cyclic") {
        Ok(System::Cyclic)
    } else if ascii_case_insensitive_eq(word.as_str(), "numeric") {
        Ok(System::Numeric)
    } else if ascii_case_insensitive_eq(word.as_str(), "alphabetic") {
        Ok(System::Alphabetic)
    } else if ascii_case_insensitive_eq(word.as_str(), "symbolic") {
        Ok(System::Symbolic)
    } else if ascii_case_insensitive_eq(word.as_str(), "additive") {
        Ok(System::Additive)
    } else if ascii_case_insensitive_eq(word.as_str(), "fixed") {
        Ok(System::Fixed)
    } else if ascii_case_insensitive_eq(word.as_str(), "extends") {
        Ok(System::Extends)
    } else {
        Err(input.new_custom_error(CustomParseError::CounterStyleSystemIsNotKnown(word)))
    }
}

impl CounterStyleAtRule {
    /// Parses an `@counter-style` body through its closing brace and
    /// enforces the cross-descriptor validity rule.
    #[verifier::loop_isolation(false)]
    pub fn parse_body(
        name: CounterStyleIdent,
        context: &crate::context::ParserContext,
        input: &mut TokenStream,
    ) -> (r: Result<CounterStyleAtRule, PreciseParseError>)
        requires
            old(input).wf(),
        ensures
            final(input).wf(),
            final(input).tokens@ == old(input).tokens@,
            old(input).pos <= final(input).pos,
            r matches Ok(rule) ==> counter_style_invariant(rule) && rule.name == name,
            ({
                let j = old(input).spec_next_pos();
                let toks = old(input).tokens@;
                (j == toks.len() || (j < toks.len() && toks[j] is CloseCurlyBracket)) ==> (
                r matches Err(e) && e.kind == ParseErrorKind::Custom(
                    CustomParseError::InvalidCounterStyleWithoutSymbols(System::Symbolic),
                ))
            }),
    {
        let mut system: Option<System> = None;
        let mut symbols: Option<Vec<String>> = None;
        let mut has_additive_symbols = false;
        loop
            invariant
                input.wf(),
                input.tokens@ == old(input).tokens@,
                old(input).pos <= input.pos,
                symbols matches Some(sy) ==> sy@.len() >= 1,
                ({
                    let j = old(input).spec_next_pos();
                    let toks = old(input).tokens@;
                    (j == toks.len() || (j < toks.len() && toks[j] is CloseCurlyBracket))
                        ==> input.pos == old(input).pos && system is None && symbols is None
                        && !has_additive_symbols
                }),
            decreases input.tokens@.len() - input.pos,
        {
            input.skip_whitespace();
            match input.peek() {
                None => {
                    break ;
                },
                Some(CssToken::CloseCurlyBracket) => {
                    let _ = match input.next() {
                        Ok(t) => t,
                        Err(e) => {
                            return Err(e);
                        },
                    };
                    break ;
                },
                Some(CssToken::Semicolon) => {
                    let _ = match input.next() {
                        Ok(t) => t,
                        Err(e) => {
                            return Err(e);
                        },
                    };
                },
                _ => {
                    let descriptor = match input.expect_ident() {
                        Ok(n) => n,
                        Err(e) => {
                            return Err(e);
                        },
                    };
                    if !is_counter_style_descriptor(descriptor.as_str()) {
                        return Err(
                            input.new_custom_error(
                                CustomParseError::UnsupportedCounterStyleProperty(descriptor),
                            ),
                        );
                    }
                    match input.next() {
                        Ok(CssToken::Colon) => {},
                        Ok(t) => {
                            return Err(input.new_unexpected_token_error(t));
                        },
                        Err(e) => {
                            return Err(e);
                        },
                    }
                    if ascii_case_insensitive_eq(descriptor.as_str(), "system") {
                        let parsed = match parse_counter_style_system(input) {
                            Ok(s) => s,
                            Err(e) => {
                                return Err(e);
                            },
                        };
                        system = Some(parsed);
                        let _ = input.collect_declaration_value();
                    } else if ascii_case_insensitive_eq(descriptor.as_str(), "symbols") {
                        let ghost before_symbols = input.pos as int;
                        let mut list: Vec<String> = Vec::new();
                        loop
                            invariant
                                input.wf(),
                                input.tokens@ == old(input).tokens@,
                                before_symbols <= input.pos,
                            decreases input.tokens@.len() - input.pos,
                        {
                            match input.peek() {
                                Some(CssToken::Ident(_)) | Some(CssToken::QuotedString(_)) => {
                                    match input.next() {
                                        Ok(CssToken::Ident(s)) => list.push(s),
                                        Ok(CssToken::QuotedString(s)) => list.push(s),
                                        Ok(t) => {
                                            return Err(input.new_unexpected_token_error(t));
                                        },
                                        Err(e) => {
                                            return Err(e);
                                        },
                                    }
                                },
                                _ => {
                                    break ;
                                },
                            }
                        }
                        if list.len() == 0 {
                            return Err(
                                input.new_custom_error(
                                    CustomParseError::CounterStyleSymbolsCanNotBeEmpty,
                                ),
                            );
                        }
                        symbols = Some(list);
                    } else if ascii_case_insensitive_eq(descriptor.as_str(), "additive-symbols") {
                        let _ = input.collect_declaration_value();
                        has_additive_symbols = true;
                    } else {
                        let _ = input.collect_declaration_value();
                    }
                },
            }
        }
        let rule = CounterStyleAtRule { name, system, symbols, has_additive_symbols };
        let effective = match &rule.system {
            None => System::Symbolic,
            Some(s) => *s,
        };
        match effective {
            System::Cyclic | System::Symbolic | System::Fixed => {
                if matches!(&rule.symbols, Option::None) {
                    return Err(
                        input.new_custom_error(
                            CustomParseError::InvalidCounterStyleWithoutSymbols(effective),
                        ),
                    );
                }
            },
            System::Alphabetic | System::Numeric => {
                match &rule.symbols {
                    None => {
                        return Err(
                            input.new_custom_error(
                                CustomParseError::InvalidCounterStyleWithoutSymbols(effective),
                            ),
                        );
                    },
                    Some(sy) => {
                        if sy.len() < 2 {
                            return Err(
                                input.new_custom_error(
                                    CustomParseError::InvalidCounterStyleNotEnoughSymbols(
                                        effective,
                                    ),
                                ),
                            );
                        }
                    },
                }
            },
            System::Additive => {
                if !rule.has_additive_symbols {
                    return Err(
                        input.new_custom_error(
                            CustomParseError::InvalidCounterStyleWithoutAdditiveSymbols,
                        ),
                    );
                }
            },
            System::Extends => {
                if matches!(&rule.symbols, Option::Some(_)) {
                    return Err(
                        input.new_custom_error(
                            CustomParseError::InvalidCounterStyleExtendsWithSymbols,
                        ),
                    );
                }
                if rule.has_additive_symbols {
                    return Err(
                        input.new_custom_error(
                            CustomParseError::InvalidCounterStyleExtendsWithAdditiveSymbols,
                        ),
                    );
                }
            },
        }
        Ok(rule)
    }
}

impl KeyframesName {
    /// Parses a keyframes name: a custom identifier (CSS-wide keywords and
    /// `none` excluded) or a quoted string.
    pub fn parse(input: &mut TokenStream) -> (r: Result<KeyframesName, PreciseParseError>)
        requires
            old(input).wf(),
        ensures
            final(input).wf(),
            final(input).tokens@ == old(input).tokens@,
            old(input).pos <= final(input).pos,
            ({
                let j = old(input).spec_next_pos();
                let toks = old(input).tokens@;
                &&& j < toks.len() ==> (toks[j] matches CssToken::QuotedString(s) ==> (r matches Ok(
                    n,
                ) && n matches KeyframesName::QuotedString(q) && q@ == s@))
                &&& j < toks.len() ==> (toks[j] matches CssToken::Ident(s) ==> {
                    &&& spec_is_excluded_keyframes_ident(s@) ==> (r matches Err(e) && e.kind
                        matches ParseErrorKind::Custom(ce) && ce
                        matches CustomParseError::CustomIdentWasExcluded(w) && w@ == s@)
                    &&& !spec_is_excluded_keyframes_ident(s@) ==> (r matches Ok(n) && n
                        matches KeyframesName::Ident(q) && q@ == s@)
                })
            }),
    {
        match input.next() {
            Ok(CssToken::Ident(s)) => {
                if is_excluded_keyframes_ident(s.as_str()) {
                    Err(input.new_custom_error(CustomParseError::CustomIdentWasExcluded(s)))
                } else {
                    Ok(KeyframesName::Ident(s))
                }
            },
            Ok(CssToken::QuotedString(s)) => Ok(KeyframesName::QuotedString(s)),
            Ok(t) => Err(input.new_unexpected_token_error(t)),
            Err(e) => Err(e),
        }
    }
}

/// The canonical serialized text of a keyframes name.
pub open spec fn keyframes_name_css(n: KeyframesName) -> Seq<char> {
    match n {
        KeyframesName::Ident(s) => crate::css_escape::css_escaped_ident(s@),
        KeyframesName::QuotedString(s) => crate::css_escape::css_quoted_string(s@),
    }
}

impl KeyframesName {
    /// The canonical serialized text: an escaped identifier or a quoted,
    /// escaped string.
    pub fn to_css_string(&self) -> (r: String)
        ensures
            r@ == keyframes_name_css(*self),
    {
        match self {
            KeyframesName::Ident(s) => crate::css_escape::escape_ident(s.as_str()),
            KeyframesName::QuotedString(s) => crate::css_escape::escape_string(s.as_str()),
        }
    }
}

/// The identifiers a keyframes name may not use: the CSS-wide keywords,
/// `default`, and `none`.
pub open spec fn spec_is_excluded_keyframes_ident(s: Seq<char>) -> bool {
    ||| eq_ignore_ascii_case_seq(s, "initial"@)
    ||| eq_ignore_ascii_case_seq(s, "inherit"@)
    ||| eq_ignore_ascii_case_seq(s, "unset"@)
    ||| eq_ignore_ascii_case_seq(s, "default"@)
    ||| eq_ignore_ascii_case_seq(s, "none"@)
}

fn is_excluded_keyframes_ident(s: &str) -> (r: bool)
    ensures
        r == spec_is_excluded_keyframes_ident(s@),
{
    ascii_case_insensitive_eq(s, "initial") || ascii_case_insensitive_eq(s, "inherit")
        || ascii_case_insensitive_eq(s, "unset") || ascii_case_insensitive_eq(s, "default")
        || ascii_case_insensitive_eq(s, "none")
}

/// A generic font family keyword, which `@font-feature-values` may not
/// name.
pub open spec fn spec_is_generic_family(s: Seq<char>) -> bool {
    ||| eq_ignore_ascii_case_seq(s, "serif"@)
    ||| eq_ignore_ascii_case_seq(s, "sans-serif"@)
    ||| eq_ignore_ascii_case_seq(s, "monospace"@)
    ||| eq_ignore_ascii_case_seq(s, "cursive"@)
    ||| eq_ignore_ascii_case_seq(s, "fantasy"@)
}

fn is_generic_family(s: &str) -> (r: bool)
    ensures
        r == spec_is_generic_family(s@),
{
    ascii_case_insensitive_eq(s, "serif") || ascii_case_insensitive_eq(s, "sans-serif")
        || ascii_case_insensitive_eq(s, "monospace") || ascii_case_insensitive_eq(s, "cursive")
        || ascii_case_insensitive_eq(s, "fantasy")
}

impl FamilyName {
    /// Parses the comma-separated font family name list of
    /// `@font-feature-values`; a generic family keyword is rejected.
    #[verifier::loop_isolation(false)]
    pub fn parse_family_name_list(
        context: &crate::context::ParserContext,
        input: &mut TokenStream,
    ) -> (r: Result<Vec<FamilyName>, PreciseParseError>)
        requires
            old(input).wf(),
        ensures
            final(input).wf(),
            final(input).tokens@ == old(input).tokens@,
            old(input).pos <= final(input).pos,
            r matches Ok(v) ==> v@.len() >= 1,
            ({
                let j = old(input).spec_next_pos();
                let toks = old(input).tokens@;
                let k = crate::tokens::next_non_ws(toks, j + 1);
                &&& j < toks.len() ==> (toks[j] matches CssToken::Ident(s) ==> {
                    &&& spec_is_generic_family(s@) ==> (r matches Err(e) && e.kind
                        matches ParseErrorKind::Custom(ce) && ce
                        == CustomParseError::FontFaceAtRuleFontFamilyCanNotBeGeneric)
                    &&& !spec_is_generic_family(s@) ==> (r matches Ok(v) ==> v@[0].name@ == s@)
                    &&& !spec_is_generic_family(s@) && (k == toks.len() || !(toks[k] is Comma))
                        ==> (r matches Ok(v) && v@.len() == 1 && v@[0].name@ == s@)
                })
                &&& j < toks.len() ==> (toks[j] matches CssToken::QuotedString(s) ==> {
                    &&& (r matches Ok(v) ==> v@[0].name@ == s@)
                    &&& k == toks.len() || !(toks[k] is Comma) ==> (r matches Ok(v) && v@.len()
                        == 1 && v@[0].name@ == s@)
                })
                &&& j < toks.len() && !(toks[j] is Ident) && !(toks[j] is QuotedString)
                    ==> r is Err
                &&& j == toks.len() ==> r is Err
            }),
    {
        let first = match parse_one_family_name(input) {
            Ok(n) => n,
            Err(e) => {
                return Err(e);
            },
        };
        let ghost first_spec = first;
        let mut names: Vec<FamilyName> = Vec::new();
        names.push(first);
        match input.peek() {
            Some(CssToken::Comma) => {},
            _ => {
                return Ok(names);
            },
        }
        proof {
            let j = old(input).spec_next_pos();
            let toks = old(input).tokens@;
            assert(j < toks.len());
            if toks[j] is Ident {
                assert(input.pos == j + 1);
            } else {
                assert(toks[j] is QuotedString);
                assert(input.pos == j + 1);
            }
        }
        loop
            invariant
                input.wf(),
                input.tokens@ == old(input).tokens@,
                old(input).pos <= input.pos,
                names@.len() >= 1,
                names@[0] == first_spec,
                ({
                    let j = old(input).spec_next_pos();
                    let toks = old(input).tokens@;
                    let k = crate::tokens::next_non_ws(toks, j + 1);
                    k < toks.len() && toks[k] is Comma
                }),
            decreases input.tokens@.len() - input.pos,
        {
            match input.peek() {
                Some(CssToken::Comma) => {
                    let _ = match input.next() {
                        Ok(t) => t,
                        Err(e) => {
                            return Err(e);
                        },
                    };
                },
                _ => {
                    return Ok(names);
                },
            }
            let name = match parse_one_family_name(input) {
                Ok(n) => n,
                Err(e) => {
                    return Err(e);
                },
            };
            names.push(name);
        }
    }
}

/// One font family name: an identifier that is no generic family keyword,
/// or a quoted string.
fn parse_one_family_name(input: &mut TokenStream) -> (r: Result<FamilyName, PreciseParseError>)
    requires
        old(input).wf(),
    ensures
        final(input).wf(),
        final(input).tokens@ == old(input).tokens@,
        old(input).pos <= final(input).pos,
        old(input).pos <= old(input).spec_next_pos() <= old(input).tokens@.len(),
        ({
            let j = old(input).spec_next_pos();
            let toks = old(input).tokens@;
            &&& j < toks.len() ==> (toks[j] matches CssToken::Ident(s) ==> {
                &&& spec_is_generic_family(s@) ==> (r matches Err(e) && e.kind
                    matches ParseErrorKind::Custom(ce) && ce
                    == CustomParseError::FontFaceAtRuleFontFamilyCanNotBeGeneric)
                &&& !spec_is_generic_family(s@) ==> (r matches Ok(n) && n.name@ == s@ && final(input).pos == j + 1)
            })
            &&& j < toks.len() ==> (toks[j] matches CssToken::QuotedString(s) ==> (r matches Ok(n)
                && n.name@ == s@ && final(input).pos == j + 1))
            &&& j < toks.len() && !(toks[j] is Ident) && !(toks[j] is QuotedString) ==> r is Err
            &&& j == toks.len() ==> r is Err
        }),
{
    match input.next() {
        Ok(CssToken::Ident(s)) => {
            if is_generic_family(s.as_str()) {
                Err(
                    input.new_custom_error(
                        CustomParseError::FontFaceAtRuleFontFamilyCanNotBeGeneric,
                    ),
                )
            } else {
                Ok(FamilyName { name: s })
            }
        },
        Ok(CssToken::QuotedString(s)) => Ok(FamilyName { name: s }),
        Ok(t) => Err(input.new_unexpected_token_error(t)),
        Err(e) => Err(e),
    }
}

impl MediaList {
    /// Parses a comma-separated media query list, each query kept as its
    /// raw prelude tokens; the list ends before a block, a semicolon or the
    /// end of the enclosing input.
    #[verifier::loop_isolation(false)]
    pub fn parse_media_query_list(
        context: &crate::context::ParserContext,
        input: &mut TokenStream,
        in_media_rule: bool,
    ) -> (r: Result<MediaList, PreciseParseError>)
        requires
            old(input).wf(),
        ensures
            final(input).wf(),
            final(input).tokens@ == old(input).tokens@,
            old(input).pos <= final(input).pos,
            r is Ok,
    {
        let mut media_queries: Vec<MediaQuery> = Vec::new();
        loop
            invariant
                input.wf(),
                input.tokens@ == old(input).tokens@,
                old(input).pos <= input.pos,
            decreases input.tokens@.len() - input.pos,
        {
            input.skip_whitespace();
            let tokens = input.collect_prelude_segment();
            if tokens.len() > 0 {
                media_queries.push(MediaQuery { tokens });
            }
            match input.peek() {
                Some(CssToken::Comma) => {
                    let _ = match input.next() {
                        Ok(t) => t,
                        Err(e) => {
                            return Err(e);
                        },
                    };
                },
                _ => {
                    return Ok(MediaList { media_queries });
                },
            }
        }
    }
}

impl SupportsCondition {
    /// Parses an `@supports` condition, kept as its raw prelude tokens: the
    /// whole segment before the block, which must be non-empty.
    pub fn parse(input: &mut TokenStream) -> (r: Result<SupportsCondition, PreciseParseError>)
        requires
            old(input).wf(),
        ensures
            final(input).wf(),
            final(input).tokens@ == old(input).tokens@,
            old(input).pos <= final(input).pos,
            r matches Ok(c) ==> c.tokens@.len() >= 1 && c.tokens@ == old(input).tokens@.subrange(
                old(input).spec_next_pos(),
                final(input).pos as int,
            ),
            ({
                let j = old(input).spec_next_pos();
                let toks = old(input).tokens@;
                &&& j < toks.len() && !crate::tokens::spec_prelude_stop_token(toks[j]) ==> r is Ok
                &&& j == toks.len() || (j < toks.len() && crate::tokens::spec_prelude_stop_token(
                    toks[j],
                )) ==> (r matches Err(e) && e.kind matches ParseErrorKind::Custom(ce) && ce
                    matches CustomParseError::InvalidSupportsCondition(w) && w@ == Seq::<
                    char,
                >::empty())
            }),
    {
        input.skip_whitespace();
        let ghost j = input.pos as int;
        let tokens = input.collect_prelude_segment();
        proof {
            assert(j == old(input).spec_next_pos());
            assert(tokens@ == old(input).tokens@.subrange(j, input.pos as int));
            if j < old(input).tokens@.len() && !crate::tokens::spec_prelude_stop_token(
                old(input).tokens@[j],
            ) {
                assert(input.pos > j);
                assert(tokens@.len() > 0);
            }
        }
        if tokens.len() == 0 {
            let empty = String::new();
            Err(input.new_custom_error(CustomParseError::InvalidSupportsCondition(empty)))
        } else {
            Ok(SupportsCondition { tokens })
        }
    }
}

impl DocumentCondition {
    /// Parses the comma-separated URL matching functions of `@document`;
    /// an unknown matching function is invalid.
    #[verifier::loop_isolation(false)]
    pub fn parse(context: &crate::context::ParserContext, input: &mut TokenStream) -> (r: Result<
        DocumentCondition,
        PreciseParseError,
    >)
        requires
            old(input).wf(),
        ensures
            final(input).wf(),
            final(input).tokens@ == old(input).tokens@,
            old(input).pos <= final(input).pos,
            r matches Ok(c) ==> c.0@.len() >= 1,
            ({
                let j = old(input).spec_next_pos();
                let toks = old(input).tokens@;
                j < toks.len() ==> (toks[j] matches CssToken::UnquotedUrl(u) ==> {
                    &&& (r matches Ok(c) ==> c.0@[0] == UrlMatchingFunction::Url(u))
                    &&& ({
                        let k = crate::tokens::next_non_ws(toks, j + 1);
                        k == toks.len() || !(toks[k] is Comma)
                    }) ==> (r matches Ok(c) && c.0@ =~= seq![UrlMatchingFunction::Url(u)])
                })
            }),
    {
        let first = parse_url_matching_function(input);
        let first = match first {
            Ok(f) => f,
            Err(e) => {
                return Err(e);
            },
        };
        let ghost first_spec = first;
        let mut functions: Vec<UrlMatchingFunction> = Vec::new();
        functions.push(first);
        match input.peek() {
            Some(CssToken::Comma) => {},
            _ => {
                return Ok(DocumentCondition(functions));
            },
        }
        proof {
            let j = old(input).spec_next_pos();
            let toks = old(input).tokens@;
            if j < toks.len() && toks[j] is UnquotedUrl {
                assert(first_spec == UrlMatchingFunction::Url(toks[j]->UnquotedUrl_0));
                assert(input.pos == j + 1);
                assert(input.spec_next_pos() == crate::tokens::next_non_ws(toks, j + 1));
                let k = crate::tokens::next_non_ws(toks, j + 1);
                assert(k < toks.len());
                assert(toks[k] is Comma);
            }
        }
        loop
            invariant
                input.wf(),
                input.tokens@ == old(input).tokens@,
                old(input).pos <= input.pos,
                functions@.len() >= 1,
                functions@[0] == first_spec,
                ({
                    let j = old(input).spec_next_pos();
                    let toks = old(input).tokens@;
                    j < toks.len() ==> (toks[j] matches CssToken::UnquotedUrl(u) ==> first_spec
                        == UrlMatchingFunction::Url(u) && ({
                        let k = crate::tokens::next_non_ws(toks, j + 1);
                        k < toks.len() && toks[k] is Comma
                    }))
                }),
            decreases input.tokens@.len() - input.pos,
        {
            match input.peek() {
                Some(CssToken::Comma) => {
                    let _ = match input.next() {
                        Ok(t) => t,
                        Err(e) => {
                            return Err(e);
                        },
                    };
                },
                _ => {
                    return Ok(DocumentCondition(functions));
                },
            }
            let function = match parse_url_matching_function(input) {
                Ok(f) => f,
                Err(e) => {
                    return Err(e);
                },
            };
            functions.push(function);
        }
    }
}

/// One URL matching function of `@document`: a bare URL token or one of
/// the four matching function keywords around a quoted string.
#[verifier::loop_isolation(false)]
fn parse_url_matching_function(input: &mut TokenStream) -> (r: Result<
    UrlMatchingFunction,
    PreciseParseError,
>)
    requires
        old(input).wf(),
    ensures
        final(input).wf(),
        final(input).tokens@ == old(input).tokens@,
        old(input).pos <= final(input).pos,
        old(input).pos <= old(input).spec_next_pos() <= old(input).tokens@.len(),
        r is Ok ==> final(input).pos > old(input).pos,
        ({
            let j = old(input).spec_next_pos();
            let toks = old(input).tokens@;
            &&& j < toks.len() ==> (toks[j] matches CssToken::UnquotedUrl(u) ==> r == Ok::<
                UrlMatchingFunction,
                PreciseParseError,
            >(UrlMatchingFunction::Url(u)) && final(input).pos == j + 1)
            &&& j < toks.len() && !(toks[j] is UnquotedUrl) && !(toks[j] is Function) ==> r is Err
            &&& j == toks.len() ==> r is Err
        }),
{
    match input.next() {
        Ok(CssToken::UnquotedUrl(u)) => Ok(UrlMatchingFunction::Url(u)),
        Ok(CssToken::Function(name)) => {
            let argument = match input.expect_string() {
                Ok(s) => s,
                Err(e) => {
                    return Err(e);
                },
            };
            match input.next() {
                Ok(CssToken::CloseParenthesis) => {},
                Ok(t) => {
                    return Err(input.new_unexpected_token_error(t));
                },
                Err(e) => {
                    return Err(e);
                },
            }
            if ascii_case_insensitive_eq(name.as_str(), "url") {
                Ok(UrlMatchingFunction::Url(argument))
            } else if ascii_case_insensitive_eq(name.as_str(), "url-prefix") {
                Ok(UrlMatchingFunction::UrlPrefix(argument))
            } else if ascii_case_insensitive_eq(name.as_str(), "domain") {
                Ok(UrlMatchingFunction::Domain(argument))
            } else if ascii_case_insensitive_eq(name.as_str(), "regexp") {
                Ok(UrlMatchingFunction::RegExp(argument))
            } else {
                Err(
                    input.new_custom_error(
                        CustomParseError::DocumentAtRuleUrlMatchingFunctionWasInvalid,
                    ),
                )
            }
        },
        Ok(t) => Err(input.new_unexpected_token_error(t)),
        Err(e) => Err(e),
    }
}

impl PageSelectorPseudoClass {
    /// Parses the optional `@page` selector pseudo-class.
    pub fn parse(input: &mut TokenStream) -> (r: Result<
        Option<PageSelectorPseudoClass>,
        PreciseParseError,
    >)
        requires
            old(input).wf(),
        ensures
            final(input).wf(),
            final(input).tokens@ == old(input).tokens@,
            old(input).pos <= final(input).pos,
            ({
                let j = old(input).spec_next_pos();
                let toks = old(input).tokens@;
                &&& j < toks.len() && !(toks[j] is Colon) ==> r == Ok::<
                    Option<PageSelectorPseudoClass>,
                    PreciseParseError,
                >(None) && final(input).pos == old(input).pos
                &&& j == toks.len() ==> r == Ok::<Option<PageSelectorPseudoClass>, PreciseParseError>(None)
                    && final(input).pos == old(input).pos
                &&& j < toks.len() && toks[j] is Colon ==> ({
                    let k = crate::tokens::next_non_ws(toks, j + 1);
                    k < toks.len() ==> (toks[k] matches CssToken::Ident(s) ==> {
                        &&& eq_ignore_ascii_case_seq(s@, "first"@) ==> r == Ok::<
                            Option<PageSelectorPseudoClass>,
                            PreciseParseError,
                        >(Some(PageSelectorPseudoClass::First))
                        &&& !eq_ignore_ascii_case_seq(s@, "first"@) && eq_ignore_ascii_case_seq(
                            s@,
                            "left"@,
                        ) ==> r == Ok::<Option<PageSelectorPseudoClass>, PreciseParseError>(
                            Some(PageSelectorPseudoClass::Left),
                        )
                        &&& !eq_ignore_ascii_case_seq(s@, "first"@) && !eq_ignore_ascii_case_seq(
                            s@,
                            "left"@,
                        ) && eq_ignore_ascii_case_seq(s@, "right"@) ==> r == Ok::<
                            Option<PageSelectorPseudoClass>,
                            PreciseParseError,
                        >(Some(PageSelectorPseudoClass::Right))
                        &&& !eq_ignore_ascii_case_seq(s@, "first"@) && !eq_ignore_ascii_case_seq(
                            s@,
                            "left"@,
                        ) && !eq_ignore_ascii_case_seq(s@, "right"@) && eq_ignore_ascii_case_seq(
                            s@,
                            "blank"@,
                        ) ==> r == Ok::<Option<PageSelectorPseudoClass>, PreciseParseError>(
                            Some(PageSelectorPseudoClass::Blank),
                        )
                        &&& !eq_ignore_ascii_case_seq(s@, "first"@) && !eq_ignore_ascii_case_seq(
                            s@,
                            "left"@,
                        ) && !eq_ignore_ascii_case_seq(s@, "right"@) && !eq_ignore_ascii_case_seq(
                            s@,
                            "blank"@,
                        ) ==> (r matches Err(e) && e.kind matches ParseErrorKind::Custom(ce) && ce
                            matches CustomParseError::InvalidPageSelectorPseudoClass(w) && w@
                            == s@)
                    })
                })
            }),
    {
        match input.peek() {
            Some(CssToken::Colon) => {
                let _ = match input.next() {
                    Ok(t) => t,
                    Err(e) => {
                        return Err(e);
                    },
                };
                let name = match input.expect_ident() {
                    Ok(n) => n,
                    Err(e) => {
                        return Err(e);
                    },
                };
                if ascii_case_insensitive_eq(name.as_str(), "first") {
                    Ok(Some(PageSelectorPseudoClass::First))
                } else if ascii_case_insensitive_eq(name.as_str(), "left") {
                    Ok(Some(PageSelectorPseudoClass::Left))
                } else if ascii_case_insensitive_eq(name.as_str(), "right") {
                    Ok(Some(PageSelectorPseudoClass::Right))
                } else if ascii_case_insensitive_eq(name.as_str(), "blank") {
                    Ok(Some(PageSelectorPseudoClass::Blank))
                } else {
                    Err(
                        input.new_custom_error(
                            CustomParseError::InvalidPageSelectorPseudoClass(name),
                        ),
                    )
                }
            },
            _ => Ok(None),
        }
    }
}

} // verus!
