//! The nested rule grammar: keyword dispatch with no ordering constraint,
//! recursing with a derived context, and rule-list recovery that skips one
//! malformed rule and resumes at the next rule boundary.

use vstd::prelude::*;
use crate::ascii::ascii_case_insensitive_eq;
use crate::ascii::eq_ignore_ascii_case_seq;
use crate::context::CssRuleType;
use crate::context::ParserContext;
use crate::errors::CustomParseError;
use crate::errors::ParseErrorKind;
use crate::errors::PreciseParseError;
use crate::namespaces::Namespaces;
use crate::parsers::at_rule_prelude::AtRuleBlockPrelude;
use crate::parsers::font_feature_values_at_rule_parser::FontFeatureValuesAtRuleParser;
use crate::parsers::keyframe_list_parser::KeyframeListParser;
use crate::parsers::our_selector_parser::OurSelectorParser;
use crate::properties::PropertyDeclarations;
use crate::rules::CounterStyleAtRule;
use crate::rules::CounterStyleIdent;
use crate::rules::CssRule;
use crate::rules::CssRules;
use crate::rules::DocumentAtRule;
use crate::rules::DocumentCondition;
use crate::rules::FamilyName;
use crate::rules::FontFaceAtRule;
use crate::rules::FontFeatureValuesAtRule;
use crate::rules::KeyframesAtRule;
use crate::rules::KeyframesName;
use crate::rules::MediaAtRule;
use crate::rules::MediaList;
use crate::rules::PageAtRule;
use crate::rules::PageSelectorPseudoClass;
use crate::rules::StyleRule;
use crate::rules::SupportsAtRule;
use crate::rules::SupportsCondition;
use crate::rules::ViewportAtRule;
use crate::selectors::SelectorRestriction;
use crate::selectors::VendorPrefix;
use crate::tokens::CssToken;
use crate::tokens::lemma_next_non_ws;
use crate::tokens::TokenStream;

verus! {

/// Whether none of the first `n` nested at-rule keywords matches, in the
/// order the dispatcher tries them.
pub open spec fn spec_nested_keyword_miss(name: Seq<char>, n: int) -> bool {
    &&& n > 0 ==> !eq_ignore_ascii_case_seq(name, "counter-style"@)
    &&& n > 1 ==> !eq_ignore_ascii_case_seq(name, "document"@)
    &&& n > 2 ==> !eq_ignore_ascii_case_seq(name, "-moz-document"@)
    &&& n > 3 ==> !eq_ignore_ascii_case_seq(name, "font-face"@)
    &&& n > 4 ==> !eq_ignore_ascii_case_seq(name, "font-feature-values"@)
    &&& n > 5 ==> !eq_ignore_ascii_case_seq(name, "keyframes"@)
    &&& n > 6 ==> !eq_ignore_ascii_case_seq(name, "-webkit-keyframes"@)
    &&& n > 7 ==> !eq_ignore_ascii_case_seq(name, "-moz-keyframes"@)
    &&& n > 8 ==> !eq_ignore_ascii_case_seq(name, "media"@)
    &&& n > 9 ==> !eq_ignore_ascii_case_seq(name, "page"@)
    &&& n > 10 ==> !eq_ignore_ascii_case_seq(name, "supports"@)
    &&& n > 11 ==> !eq_ignore_ascii_case_seq(name, "viewport"@)
    &&& n > 12 ==> !eq_ignore_ascii_case_seq(name, "-ms-viewport"@)
    &&& n > 13 ==> !eq_ignore_ascii_case_seq(name, "-o-viewport"@)
}

/// What a well-formed keyframes prelude owes: the parsed name tied to its
/// token, under the dispatched vendor prefix.
pub open spec fn spec_keyframes_prelude_holds(
    vp: Option<VendorPrefix>,
    toks: Seq<CssToken>,
    j: int,
    r: Result<AtRuleBlockPrelude, PreciseParseError>,
) -> bool {
    &&& j < toks.len() ==> (toks[j] matches CssToken::Ident(s) ==> (
    !crate::rules::spec_is_excluded_keyframes_ident(s@) ==> (r matches Ok(p) && p
        matches AtRuleBlockPrelude::Keyframes(vp2, n) && vp2 == vp && (n
        matches KeyframesName::Ident(q) && q@ == s@))))
    &&& j < toks.len() ==> (toks[j] matches CssToken::QuotedString(s) ==> (r matches Ok(p) && p
        matches AtRuleBlockPrelude::Keyframes(vp2, n) && vp2 == vp && (n
        matches KeyframesName::QuotedString(q) && q@ == s@)))
}

/// The nested grammar engine: it dispatches on at-rule keywords, parses
/// qualified rules through the selector adapter, and recurses into nested
/// rule lists with a derived context and the shared (now read-only)
/// namespace table.
pub struct NestedRuleParser<'a> {
    pub context: &'a ParserContext,
    pub namespaces: &'a Namespaces,
}

impl<'a> NestedRuleParser<'a> {
    /// A context derived for a nested rule of the given type.
    pub fn context_new_with_rule_type(&self, cssRuleType: CssRuleType) -> (r: ParserContext)
        ensures
            r.rule_type == Some(cssRuleType),
            r.is_in_quirks_mode == self.context.is_in_quirks_mode,
    {
        ParserContext::new_with_rule_type(self.context, cssRuleType)
    }

    /// Dispatches an at-rule keyword to its prelude grammar,
    /// case-insensitively; an unrecognized keyword is unsupported.
    pub fn parse_prelude(&self, name: String, input: &mut TokenStream) -> (r: Result<
        AtRuleBlockPrelude,
        PreciseParseError,
    >)
        requires
            old(input).wf(),
        ensures
            final(input).wf(),
            final(input).tokens@ == old(input).tokens@,
            old(input).pos <= final(input).pos,
            r matches Ok(p) ==> !(p is Import) && !(p is Namespace),
            eq_ignore_ascii_case_seq(name@, "counter-style"@) ==> ({
                let j = old(input).spec_next_pos();
                let toks = old(input).tokens@;
                &&& (r matches Ok(p) ==> p is CounterStyle)
                &&& j < toks.len() ==> (toks[j] matches CssToken::Ident(s) ==> (
                !eq_ignore_ascii_case_seq(s@, "none"@) && !eq_ignore_ascii_case_seq(s@, "decimal"@)
                    && !eq_ignore_ascii_case_seq(s@, "disc"@) ==> (r matches Ok(p) && p
                    matches AtRuleBlockPrelude::CounterStyle(n) && n.0@ == s@)))
            }),
            spec_nested_keyword_miss(name@, 1) && eq_ignore_ascii_case_seq(name@, "document"@)
                ==> ({
                let j = old(input).spec_next_pos();
                let toks = old(input).tokens@;
                let k = crate::tokens::next_non_ws(toks, j + 1);
                &&& (r matches Ok(p) ==> p matches AtRuleBlockPrelude::Document(vp, _) && vp
                    is None)
                &&& j < toks.len() ==> (toks[j] matches CssToken::UnquotedUrl(u) ==> ((k
                    == toks.len() || !(toks[k] is Comma)) ==> (r matches Ok(p) && p
                    matches AtRuleBlockPrelude::Document(_, c) && c.0@ =~= seq![
                    crate::rules::UrlMatchingFunction::Url(u)])))
            }),
            spec_nested_keyword_miss(name@, 2) && eq_ignore_ascii_case_seq(
                name@,
                "-moz-document"@,
            ) ==> (r matches Ok(p) ==> p matches AtRuleBlockPrelude::Document(vp, _) && vp
                == Some(VendorPrefix::moz)),
            spec_nested_keyword_miss(name@, 3) && eq_ignore_ascii_case_seq(name@, "font-face"@)
                ==> r == Ok::<_, PreciseParseError>(AtRuleBlockPrelude::FontFace),
            spec_nested_keyword_miss(name@, 4) && eq_ignore_ascii_case_seq(
                name@,
                "font-feature-values"@,
            ) ==> ({
                let j = old(input).spec_next_pos();
                let toks = old(input).tokens@;
                let k = crate::tokens::next_non_ws(toks, j + 1);
                &&& (r matches Ok(p) ==> p is FontFeatureValues)
                &&& j < toks.len() ==> (toks[j] matches CssToken::Ident(s) ==> (
                !crate::rules::spec_is_generic_family(s@) && (k == toks.len() || !(toks[k]
                    is Comma)) ==> (r matches Ok(p) && p
                    matches AtRuleBlockPrelude::FontFeatureValues(v) && v@.len() == 1
                    && v@[0].name@ == s@)))
                &&& j < toks.len() ==> (toks[j] matches CssToken::QuotedString(s) ==> ((k
                    == toks.len() || !(toks[k] is Comma)) ==> (r matches Ok(p) && p
                    matches AtRuleBlockPrelude::FontFeatureValues(v) && v@.len() == 1
                    && v@[0].name@ == s@)))
            }),
            spec_nested_keyword_miss(name@, 5) && eq_ignore_ascii_case_seq(name@, "keyframes"@)
                ==> ((r matches Ok(p) ==> p matches AtRuleBlockPrelude::Keyframes(vp, _) && vp
                is None) && spec_keyframes_prelude_holds(
                None,
                old(input).tokens@,
                old(input).spec_next_pos(),
                r,
            )),
            spec_nested_keyword_miss(name@, 6) && eq_ignore_ascii_case_seq(
                name@,
                "-webkit-keyframes"@,
            ) ==> ((r matches Ok(p) ==> p matches AtRuleBlockPrelude::Keyframes(vp, _) && vp
                == Some(VendorPrefix::webkit)) && spec_keyframes_prelude_holds(
                Some(VendorPrefix::webkit),
                old(input).tokens@,
                old(input).spec_next_pos(),
                r,
            )),
            spec_nested_keyword_miss(name@, 7) && eq_ignore_ascii_case_seq(
                name@,
                "-moz-keyframes"@,
            ) ==> ((r matches Ok(p) ==> p matches AtRuleBlockPrelude::Keyframes(vp, _) && vp
                == Some(VendorPrefix::moz)) && spec_keyframes_prelude_holds(
                Some(VendorPrefix::moz),
                old(input).tokens@,
                old(input).spec_next_pos(),
                r,
            )),
            spec_nested_keyword_miss(name@, 8) && eq_ignore_ascii_case_seq(name@, "media"@) ==> (
            r matches Ok(p) && p is Media),
            spec_nested_keyword_miss(name@, 9) && eq_ignore_ascii_case_seq(name@, "page"@) ==> ({
                let j = old(input).spec_next_pos();
                let toks = old(input).tokens@;
                &&& (r matches Ok(p) ==> p is Page)
                &&& (j == toks.len() || (j < toks.len() && !(toks[j] is Colon))) ==> r == Ok::<
                    AtRuleBlockPrelude,
                    PreciseParseError,
                >(AtRuleBlockPrelude::Page(None))
            }),
            spec_nested_keyword_miss(name@, 10) && eq_ignore_ascii_case_seq(name@, "supports"@)
                ==> ({
                let j = old(input).spec_next_pos();
                let toks = old(input).tokens@;
                &&& (r matches Ok(p) ==> p matches AtRuleBlockPrelude::Supports(c) && c.tokens@
                    == toks.subrange(j, final(input).pos as int))
                &&& j < toks.len() && !crate::tokens::spec_prelude_stop_token(toks[j])
                    ==> r is Ok
            }),
            spec_nested_keyword_miss(name@, 11) && eq_ignore_ascii_case_seq(name@, "viewport"@)
                ==> r == Ok::<_, PreciseParseError>(AtRuleBlockPrelude::Viewport(None)),
            spec_nested_keyword_miss(name@, 12) && eq_ignore_ascii_case_seq(
                name@,
                "-ms-viewport"@,
            ) ==> r == Ok::<_, PreciseParseError>(
                AtRuleBlockPrelude::Viewport(Some(VendorPrefix::ms)),
            ),
            spec_nested_keyword_miss(name@, 13) && eq_ignore_ascii_case_seq(
                name@,
                "-o-viewport"@,
            ) ==> r == Ok::<_, PreciseParseError>(
                AtRuleBlockPrelude::Viewport(Some(VendorPrefix::o)),
            ),
            spec_nested_keyword_miss(name@, 14) ==> (r matches Err(e) && e.kind
                matches ParseErrorKind::Custom(ce) && ce
                matches CustomParseError::UnsupportedAtRule(s) && s@ == name@),
    {
        if ascii_case_insensitive_eq(name.as_str(), "counter-style") {
            match CounterStyleIdent::parseForCounterStyleAtRule(input) {
                Ok(ident) => Ok(AtRuleBlockPrelude::CounterStyle(ident)),
                Err(e) => Err(e),
            }
        } else if ascii_case_insensitive_eq(name.as_str(), "document") {
            match DocumentCondition::parse(self.context, input) {
                Ok(c) => Ok(AtRuleBlockPrelude::Document(None, c)),
                Err(e) => Err(e),
            }
        } else if ascii_case_insensitive_eq(name.as_str(), "-moz-document") {
            match DocumentCondition::parse(self.context, input) {
                Ok(c) => Ok(AtRuleBlockPrelude::Document(Some(VendorPrefix::moz), c)),
                Err(e) => Err(e),
            }
        } else if ascii_case_insensitive_eq(name.as_str(), "font-face") {
            Ok(AtRuleBlockPrelude::FontFace)
        } else if ascii_case_insensitive_eq(name.as_str(), "font-feature-values") {
            match FamilyName::parse_family_name_list(self.context, input) {
                Ok(names) => Ok(AtRuleBlockPrelude::FontFeatureValues(names)),
                Err(e) => Err(e),
            }
        } else if ascii_case_insensitive_eq(name.as_str(), "keyframes") {
            match KeyframesName::parse(input) {
                Ok(n) => Ok(AtRuleBlockPrelude::Keyframes(None, n)),
                Err(e) => Err(e),
            }
        } else if ascii_case_insensitive_eq(name.as_str(), "-webkit-keyframes") {
            match KeyframesName::parse(input) {
                Ok(n) => Ok(AtRuleBlockPrelude::Keyframes(Some(VendorPrefix::webkit), n)),
                Err(e) => Err(e),
            }
        } else if ascii_case_insensitive_eq(name.as_str(), "-moz-keyframes") {
            match KeyframesName::parse(input) {
                Ok(n) => Ok(AtRuleBlockPrelude::Keyframes(Some(VendorPrefix::moz), n)),
                Err(e) => Err(e),
            }
        } else if ascii_case_insensitive_eq(name.as_str(), "media") {
            match MediaList::parse_media_query_list(self.context, input, false) {
                Ok(m) => Ok(AtRuleBlockPrelude::Media(m)),
                Err(e) => Err(e),
            }
        } else if ascii_case_insensitive_eq(name.as_str(), "page") {
            match PageSelectorPseudoClass::parse(input) {
                Ok(p) => Ok(AtRuleBlockPrelude::Page(p)),
                Err(e) => Err(e),
            }
        } else if ascii_case_insensitive_eq(name.as_str(), "supports") {
            match SupportsCondition::parse(input) {
                Ok(c) => Ok(AtRuleBlockPrelude::Supports(c)),
                Err(e) => Err(e),
            }
        } else if ascii_case_insensitive_eq(name.as_str(), "viewport") {
            Ok(AtRuleBlockPrelude::Viewport(None))
        } else if ascii_case_insensitive_eq(name.as_str(), "-ms-viewport") {
            Ok(AtRuleBlockPrelude::Viewport(Some(VendorPrefix::ms)))
        } else if ascii_case_insensitive_eq(name.as_str(), "-o-viewport") {
            Ok(AtRuleBlockPrelude::Viewport(Some(VendorPrefix::o)))
        } else {
            Err(input.new_custom_error(CustomParseError::UnsupportedAtRule(name)))
        }
    }

    /// Parses the block of an at-rule whose prelude was recognized, the
    /// opening brace already consumed; `@import` and `@namespace` take no
    /// block.
    pub fn parse_block(&self, prelude: AtRuleBlockPrelude, input: &mut TokenStream) -> (r: Result<
        CssRule,
        PreciseParseError,
    >)
        requires
            old(input).wf(),
        ensures
            final(input).wf(),
            final(input).tokens@ == old(input).tokens@,
            old(input).pos <= final(input).pos,
            prelude is Import ==> (r matches Err(e) && e.kind matches ParseErrorKind::AtRuleInvalid(
                s,
            ) && s@ == "import"@),
            prelude is Namespace ==> (r matches Err(e) && e.kind
                matches ParseErrorKind::AtRuleInvalid(s) && s@ == "namespace"@),
            prelude matches AtRuleBlockPrelude::CounterStyle(n) ==> (r matches Ok(rule) ==> rule
                matches CssRule::CounterStyle(cs) && cs.name == n),
            prelude matches AtRuleBlockPrelude::Document(vp, cond) ==> (r matches Ok(rule) ==> rule
                matches CssRule::Document(d) && d.vendor_prefix == vp && d.condition == cond),
            prelude is FontFace ==> (r matches Ok(rule) ==> rule is FontFace),
            prelude matches AtRuleBlockPrelude::FontFeatureValues(names) ==> (r matches Ok(rule)
                ==> rule matches CssRule::FontFeatureValues(f) && f.family_names@ == names@),
            prelude matches AtRuleBlockPrelude::Keyframes(vp, kn) ==> (r matches Ok(rule) ==> rule
                matches CssRule::Keyframes(k) && k.vendor_prefix == vp && k.name == kn),
            prelude matches AtRuleBlockPrelude::Media(q) ==> (r matches Ok(rule) ==> rule
                matches CssRule::Media(m) && m.media_queries == q),
            prelude matches AtRuleBlockPrelude::Page(psc) ==> (r matches Ok(rule) ==> rule
                matches CssRule::Page(p) && p.page_selector_pseudo_class == psc),
            prelude matches AtRuleBlockPrelude::Supports(c) ==> (r matches Ok(rule) ==> rule
                matches CssRule::Supports(sr) && sr.condition == c),
            prelude matches AtRuleBlockPrelude::Viewport(vp) ==> (r matches Ok(rule) ==> rule
                matches CssRule::Viewport(v) && v.vendor_prefix == vp),
        decreases input.tokens@.len() - input.pos, 2int,
    {
        match prelude {
            AtRuleBlockPrelude::Import(..) => {
                let word = string_import();
                Err(
                    PreciseParseError {
                        kind: ParseErrorKind::AtRuleInvalid(word),
                        at: input.position(),
                    },
                )
            },
            AtRuleBlockPrelude::Namespace(..) => {
                let word = string_namespace();
                Err(
                    PreciseParseError {
                        kind: ParseErrorKind::AtRuleInvalid(word),
                        at: input.position(),
                    },
                )
            },
            AtRuleBlockPrelude::CounterStyle(name) => {
                let context = self.context_new_with_rule_type(CssRuleType::CounterStyle);
                match CounterStyleAtRule::parse_body(name, &context, input) {
                    Ok(rule) => Ok(CssRule::CounterStyle(rule)),
                    Err(e) => Err(e),
                }
            },
            AtRuleBlockPrelude::Document(vendor_prefix, condition) => {
                match self.parse_nested_rules(input, CssRuleType::Document) {
                    Ok(rules) => Ok(
                        CssRule::Document(DocumentAtRule { vendor_prefix, condition, rules }),
                    ),
                    Err(e) => Err(e),
                }
            },
            AtRuleBlockPrelude::FontFace => {
                let context = self.context_new_with_rule_type(CssRuleType::FontFace);
                match FontFaceAtRule::parse_body(&context, input) {
                    Ok(rule) => Ok(CssRule::FontFace(rule)),
                    Err(e) => Err(e),
                }
            },
            AtRuleBlockPrelude::FontFeatureValues(family_names) => {
                let context = self.context_new_with_rule_type(CssRuleType::FontFeatureValues);
                match FontFeatureValuesAtRule::parse_body(&context, input, family_names) {
                    Ok(rule) => Ok(CssRule::FontFeatureValues(rule)),
                    Err(e) => Err(e),
                }
            },
            AtRuleBlockPrelude::Keyframes(vendor_prefix, name) => {
                let context = self.context_new_with_rule_type(CssRuleType::Keyframes);
                match KeyframeListParser::parse_keyframe_list(&context, input) {
                    Ok(keyframes) => Ok(
                        CssRule::Keyframes(KeyframesAtRule { vendor_prefix, name, keyframes }),
                    ),
                    Err(e) => Err(e),
                }
            },
            AtRuleBlockPrelude::Media(media_queries) => {
                match self.parse_nested_rules(input, CssRuleType::Media) {
                    Ok(rules) => Ok(CssRule::Media(MediaAtRule { media_queries, rules })),
                    Err(e) => Err(e),
                }
            },
            AtRuleBlockPrelude::Page(page_selector_pseudo_class) => {
                let context = self.context_new_with_rule_type(CssRuleType::Page);
                match PropertyDeclarations::parse_property_declaration_list(&context, input) {
                    Ok(property_declarations) => Ok(
                        CssRule::Page(
                            PageAtRule { page_selector_pseudo_class, property_declarations },
                        ),
                    ),
                    Err(e) => Err(e),
                }
            },
            AtRuleBlockPrelude::Supports(condition) => {
                match self.parse_nested_rules(input, CssRuleType::Supports) {
                    Ok(rules) => Ok(CssRule::Supports(SupportsAtRule { condition, rules })),
                    Err(e) => Err(e),
                }
            },
            AtRuleBlockPrelude::Viewport(vendor_prefix) => {
                let context = self.context_new_with_rule_type(CssRuleType::Viewport);
                match PropertyDeclarations::parse_property_declaration_list(&context, input) {
                    Ok(property_declarations) => Ok(
                        CssRule::Viewport(ViewportAtRule { vendor_prefix, property_declarations }),
                    ),
                    Err(e) => Err(e),
                }
            },
        }
    }

    /// Parses a nested rule list through its closing brace, with a derived
    /// context: a malformed rule is skipped, its error discarded, and
    /// scanning resumes at the next rule boundary.
    #[verifier::loop_isolation(false)]
    pub fn parse_nested_rules(&self, input: &mut TokenStream, rule_type: CssRuleType) -> (r:
        Result<CssRules, PreciseParseError>)
        requires
            old(input).wf(),
        ensures
            final(input).wf(),
            final(input).tokens@ == old(input).tokens@,
            old(input).pos <= final(input).pos,
            ({
                let j = old(input).spec_next_pos();
                let toks = old(input).tokens@;
                &&& j == toks.len() ==> (r matches Ok(rules) && rules.0@.len() == 0)
                &&& j < toks.len() && toks[j] is CloseCurlyBracket ==> (r matches Ok(rules)
                    && rules.0@.len() == 0 && final(input).pos == j + 1)
            }),
            ({
                let j = old(input).spec_next_pos();
                let toks = old(input).tokens@;
                let k = crate::tokens::next_non_ws(toks, j + 1);
                let m = crate::tokens::next_non_ws(toks, k + 1);
                let q = crate::tokens::next_non_ws(toks, m + 1);
                j < toks.len() ==> (toks[j] matches CssToken::Ident(nm) ==> (
                crate::parsers::our_selector_parser::spec_lone_ident_selector(toks, j) && k
                    < toks.len() && toks[k] is CurlyBracketBlock && m < toks.len() && toks[m]
                    is CloseCurlyBracket && (q == toks.len() || (q < toks.len() && toks[q]
                    is CloseCurlyBracket)) ==> (r matches Ok(rules) && rules.0@.len() == 1 && (
                rules.0@[0] matches CssRule::Style(st) && st.selectors.0@.len() == 1
                    && st.selectors.0@[0].first.type_selector == Some(
                    (crate::selectors::TypeSelector {
                        namespace: crate::selectors::NamespaceConstraint::DefaultNamespace,
                        local: crate::selectors::LocalName::Named(nm),
                    }),
                ) && st.property_declarations.0@.len() == 0))))
            }),
        decreases input.tokens@.len() - input.pos, 1int,
    {
        let context = self.context_new_with_rule_type(rule_type);
        let nested = NestedRuleParser { context: &context, namespaces: self.namespaces };
        let empty_pseudo_classes: Vec<
            (crate::selectors::VendorPrefixablePseudoClassName, VendorPrefix),
        > = Vec::new();
        let empty_pseudo_elements: Vec<
            (crate::selectors::VendorPrefixablePseudoElementName, VendorPrefix),
        > = Vec::new();
        let mut rules: Vec<CssRule> = Vec::new();
        loop
            invariant
                input.wf(),
                input.tokens@ == old(input).tokens@,
                old(input).pos <= input.pos,
                ({
                    let j = old(input).spec_next_pos();
                    let toks = old(input).tokens@;
                    (j == toks.len() || (j < toks.len() && toks[j] is CloseCurlyBracket))
                        ==> input.pos == old(input).pos && rules@.len() == 0
                }),
                ({
                    let j = old(input).spec_next_pos();
                    let toks = old(input).tokens@;
                    let k = crate::tokens::next_non_ws(toks, j + 1);
                    let m = crate::tokens::next_non_ws(toks, k + 1);
                    let q = crate::tokens::next_non_ws(toks, m + 1);
                    j < toks.len() ==> (toks[j] matches CssToken::Ident(nm) ==> (
                    crate::parsers::our_selector_parser::spec_lone_ident_selector(toks, j) && k
                        < toks.len() && toks[k] is CurlyBracketBlock && m < toks.len() && toks[m]
                        is CloseCurlyBracket && (q == toks.len() || (q < toks.len() && toks[q]
                        is CloseCurlyBracket)) ==> ((rules@.len() == 0 && input.pos == old(
                        input,
                    ).pos) || (rules@.len() == 1 && (rules@[0] matches CssRule::Style(st)
                        && st.selectors.0@.len() == 1 && st.selectors.0@[0].first.type_selector
                        == Some(
                        (crate::selectors::TypeSelector {
                            namespace: crate::selectors::NamespaceConstraint::DefaultNamespace,
                            local: crate::selectors::LocalName::Named(nm),
                        }),
                    ) && st.property_declarations.0@.len() == 0) && input.pos == m + 1))))
                }),
            decreases input.tokens@.len() - input.pos, 0int,
        {
            input.skip_whitespace();
            proof {
                lemma_next_non_ws(old(input).tokens@, input.pos as int);
            }
            let save = input.position();
            match input.peek() {
                None => {
                    return Ok(CssRules(rules));
                },
                Some(CssToken::CloseCurlyBracket) => {
                    let _ = match input.next() {
                        Ok(t) => t,
                        Err(e) => {
                            return Err(e);
                        },
                    };
                    return Ok(CssRules(rules));
                },
                Some(CssToken::AtKeyword(_)) => {
                    let name = match input.next() {
                        Ok(CssToken::AtKeyword(name)) => name,
                        Ok(t) => {
                            return Err(input.new_unexpected_token_error(t));
                        },
                        Err(e) => {
                            return Err(e);
                        },
                    };
                    let ok = match nested.parse_prelude(name, input) {
                        Ok(prelude) => {
                            match input.peek() {
                                Some(CssToken::CurlyBracketBlock) => {
                                    let _ = match input.next() {
                                        Ok(t) => t,
                                        Err(e) => {
                                            return Err(e);
                                        },
                                    };
                                    match nested.parse_block(prelude, input) {
                                        Ok(rule) => {
                                            rules.push(rule);
                                            true
                                        },
                                        Err(_) => false,
                                    }
                                },
                                _ => false,
                            }
                        },
                        Err(_) => false,
                    };
                    if !ok {
                        input.reset(save);
                        input.skip_invalid_rule();
                    }
                },
                Some(_) => {
                    let selector_parser = OurSelectorParser {
                        namespaces: self.namespaces,
                        applyVendorPrefixToPseudoClasses: &empty_pseudo_classes,
                        applyVendorPrefixToPseudoElements: &empty_pseudo_elements,
                    };
                    let ok = match selector_parser.parse_internal(
                        input,
                        SelectorRestriction::AllowAll,
                    ) {
                        Ok(selectors) => {
                            match input.peek() {
                                Some(CssToken::CurlyBracketBlock) => {
                                    let _ = match input.next() {
                                        Ok(t) => t,
                                        Err(e) => {
                                            return Err(e);
                                        },
                                    };
                                    let style_context = self.context_new_with_rule_type(
                                        CssRuleType::Style,
                                    );
                                    match PropertyDeclarations::parse_property_declaration_list(
                                        &style_context,
                                        input,
                                    ) {
                                        Ok(property_declarations) => {
                                            rules.push(
                                                CssRule::Style(
                                                    StyleRule { selectors, property_declarations },
                                                ),
                                            );
                                            true
                                        },
                                        Err(_) => false,
                                    }
                                },
                                _ => false,
                            }
                        },
                        Err(_) => false,
                    };
                    if !ok {
                        input.reset(save);
                        input.skip_invalid_rule();
                    }
                },
            }
        }
    }
}

fn string_import() -> (r: String)
    ensures
        r@ == "import"@,
{
    proof {
        reveal_strlit("import");
    }
    let mut s = String::new();
    s.append("import");
    proof {
        assert(s@ =~= "import"@);
    }
    s
}

fn string_namespace() -> (r: String)
    ensures
        r@ == "namespace"@,
{
    proof {
        reveal_strlit("namespace");
    }
    let mut s = String::new();
    s.append("namespace");
    proof {
        assert(s@ =~= "namespace"@);
    }
    s
}

} // verus!
