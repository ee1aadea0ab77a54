//! The parser for the top-level rules in a stylesheet: the three
//! ordering-sensitive keywords (`@charset`, `@import`, `@namespace`) guard a
//! monotone parse state, everything else closes the ordering window and
//! delegates to the nested grammar.

use vstd::prelude::*;
use crate::ascii::ascii_case_insensitive_eq;
use crate::ascii::eq_ignore_ascii_case_seq;
use crate::context::ParserContext;
use crate::context::State;
use crate::context::state_rank;
use crate::errors::CustomParseError;
use crate::errors::ParseErrorKind;
use crate::errors::PreciseParseError;
use crate::namespaces::NamespacePrefix;
use crate::namespaces::Namespaces;
use crate::namespaces::NamespaceUrl;
use crate::parsers::at_rule_prelude::AtRuleBlockPrelude;
use crate::parsers::nested_rule_parser::NestedRuleParser;
use crate::properties::PropertyDeclarations;
use crate::rules::CssRule;
use crate::rules::ImportAtRule;
use crate::rules::MediaList;
use crate::rules::NamespaceAtRule;
use crate::rules::SpecifiedUrl;
use crate::rules::StyleRule;
use crate::selectors::SelectorRestriction;
use crate::selectors::VendorPrefix;
use crate::selectors::VendorPrefixablePseudoClassName;
use crate::selectors::VendorPrefixablePseudoElementName;
use crate::tokens::CssToken;
use crate::tokens::TokenStream;
use crate::context::CssRuleType;
use crate::parsers::our_selector_parser::OurSelectorParser;

verus! {

/// Whether none of the first `n` ordering-sensitive keywords matches, in
/// the order the top level tries them.
pub open spec fn spec_top_level_keyword_miss(name: Seq<char>, n: int) -> bool {
    &&& n > 0 ==> !eq_ignore_ascii_case_seq(name, "charset"@)
    &&& n > 1 ==> !eq_ignore_ascii_case_seq(name, "import"@)
    &&& n > 2 ==> !eq_ignore_ascii_case_seq(name, "namespace"@)
}

/// The parser for the top-level rules in a stylesheet.
pub struct TopLevelRuleParser {
    /// This holds no namespaces of its own; nested parsers see the shared
    /// table read-only.
    pub context: ParserContext,
    /// The current state of the parser.
    pub state: State,
    pub namespaces: Namespaces,
}

impl TopLevelRuleParser {
    pub fn new(context: ParserContext) -> (r: TopLevelRuleParser)
        ensures
            r.state == State::Start,
            r.namespaces.default is None,
            r.namespaces.entries@.len() == 0,
            r.context == context,
    {
        TopLevelRuleParser { context, state: State::Start, namespaces: Namespaces::empty() }
    }

    /// The nested grammar over this parser's context and (now effectively
    /// read-only) namespace table.
    pub fn nested<'a>(&'a self) -> (r: NestedRuleParser<'a>)
        ensures
            *r.context == self.context,
            r.namespaces.default == self.namespaces.default,
            r.namespaces.entries@ == self.namespaces.entries@,
    {
        NestedRuleParser { context: &self.context, namespaces: &self.namespaces }
    }

    /// Dispatches a top-level at-rule keyword. `@charset` is always
    /// rejected; `@import` and `@namespace` are legal only while the state
    /// has not passed their window, and violating the order is an error
    /// that leaves the state as it was; anything else forces the state to
    /// `Body` and goes to the nested grammar. The state never regresses.
    pub fn parse_prelude(&mut self, name: String, input: &mut TokenStream) -> (r: Result<
        AtRuleBlockPrelude,
        PreciseParseError,
    >)
        requires
            old(input).wf(),
        ensures
            final(input).wf(),
            final(input).tokens@ == old(input).tokens@,
            old(input).pos <= final(input).pos,
            state_rank(final(self).state) >= state_rank(old(self).state),
            final(self).context == old(self).context,
            eq_ignore_ascii_case_seq(name@, "charset"@) ==> (r matches Err(e) && e.kind
                == ParseErrorKind::Custom(CustomParseError::UnexpectedCharsetAtRule) && *final(self)
                == *old(self)),
            spec_top_level_keyword_miss(name@, 1) && eq_ignore_ascii_case_seq(name@, "import"@)
                ==> {
                &&& state_rank(old(self).state) > 1 ==> (r matches Err(e) && e.kind
                    == ParseErrorKind::Custom(
                    CustomParseError::AtRuleImportMustBeBeforeAnyRuleExceptAtRuleCharset,
                ) && *final(self) == *old(self))
                &&& state_rank(old(self).state) <= 1 ==> ((r matches Ok(p) ==> p is Import)
                    && final(self).state == old(self).state && final(self).namespaces.default
                    == old(self).namespaces.default && final(self).namespaces.entries@ == old(self).namespaces.entries@)
                &&& state_rank(old(self).state) <= 1 ==> ({
                    let j = old(input).spec_next_pos();
                    let toks = old(input).tokens@;
                    &&& j < toks.len() ==> (toks[j] matches CssToken::QuotedString(u) ==> (
                    r matches Ok(p) && p matches AtRuleBlockPrelude::Import(rule) && rule.url.0@
                        == u@))
                    &&& j < toks.len() ==> (toks[j] matches CssToken::UnquotedUrl(u) ==> (
                    r matches Ok(p) && p matches AtRuleBlockPrelude::Import(rule) && rule.url.0@
                        == u@))
                })
            },
            spec_top_level_keyword_miss(name@, 2) && eq_ignore_ascii_case_seq(
                name@,
                "namespace"@,
            ) ==> {
                &&& state_rank(old(self).state) > 2 ==> (r matches Err(e) && e.kind
                    == ParseErrorKind::Custom(
                    CustomParseError::AtRuleNamespaceMustBeBeforeAnyRuleExceptAtRuleCharsetAndAtRuleImport,
                ) && *final(self) == *old(self))
                &&& state_rank(old(self).state) <= 2 ==> ((r matches Ok(p) ==> p is Namespace)
                    && final(self).state == old(self).state)
                &&& state_rank(old(self).state) <= 2 ==> (r matches Ok(p) ==> (
                p matches AtRuleBlockPrelude::Namespace(rule) && (rule.prefix matches Some(pfx)
                    ==> final(self).namespaces.default == old(self).namespaces.default && final(self).namespaces.spec_lookup(pfx.0@) == Some(rule.url.0@) && (forall|q: Seq<char>|
                    q != pfx.0@ ==> #[trigger] final(self).namespaces.spec_lookup(q) == old(self).namespaces.spec_lookup(q))) && (rule.prefix is None ==> final(self).namespaces.default
                    == Some(rule.url) && final(self).namespaces.entries@ == old(self).namespaces.entries@)))
                &&& state_rank(old(self).state) <= 2 ==> ({
                    let j = old(input).spec_next_pos();
                    let toks = old(input).tokens@;
                    let k = crate::tokens::next_non_ws(toks, j + 1);
                    &&& j < toks.len() ==> ((toks[j] is QuotedString || toks[j] is UnquotedUrl)
                        ==> (r matches Ok(p) && p is Namespace))
                    &&& j < toks.len() ==> (toks[j] matches CssToken::Ident(pn) ==> (k
                        < toks.len() && (toks[k] is QuotedString || toks[k] is UnquotedUrl) ==> (
                    r matches Ok(p) && p matches AtRuleBlockPrelude::Namespace(rule)
                        && rule.prefix matches Some(pfx) && pfx.0@ == pn@)))
                })
            },
            spec_top_level_keyword_miss(name@, 3) ==> {
                &&& state_rank(old(self).state) > 3 ==> (r matches Err(e) && e.kind
                    == ParseErrorKind::Custom(CustomParseError::InvalidParseState) && final(self).state == State::Invalid)
                &&& state_rank(old(self).state) <= 3 ==> (final(self).state == State::Body && final(self).namespaces.default == old(self).namespaces.default && final(self).namespaces.entries@ == old(self).namespaces.entries@ && (r matches Ok(p) ==> !(p
                    is Import) && !(p is Namespace)))
            },
    {
        if ascii_case_insensitive_eq(name.as_str(), "charset") {
            Err(input.new_custom_error(CustomParseError::UnexpectedCharsetAtRule))
        } else if ascii_case_insensitive_eq(name.as_str(), "import") {
            if self.state.rank() > 1 {
                return Err(
                    input.new_custom_error(
                        CustomParseError::AtRuleImportMustBeBeforeAnyRuleExceptAtRuleCharset,
                    ),
                );
            }
            match self.parseImportAtRule(input) {
                Ok(rule) => Ok(AtRuleBlockPrelude::Import(rule)),
                Err(e) => Err(e),
            }
        } else if ascii_case_insensitive_eq(name.as_str(), "namespace") {
            if self.state.rank() > 2 {
                return Err(
                    input.new_custom_error(
                        CustomParseError::AtRuleNamespaceMustBeBeforeAnyRuleExceptAtRuleCharsetAndAtRuleImport,
                    ),
                );
            }
            match self.parseNamespaceAtRule(input) {
                Ok(rule) => Ok(AtRuleBlockPrelude::Namespace(rule)),
                Err(e) => Err(e),
            }
        } else {
            if self.state.rank() > 3 {
                self.state = State::Invalid;
                return Err(input.new_custom_error(CustomParseError::InvalidParseState));
            }
            self.state = State::Body;
            let nested = self.nested();
            nested.parse_prelude(name, input)
        }
    }

    /// Finishes a body-less rule: `@import` advances the state to its
    /// window's edge, `@namespace` likewise; anything else has a block and
    /// does not belong here.
    pub fn rule_without_block(&mut self, prelude: AtRuleBlockPrelude) -> (r: Result<CssRule, ()>)
        requires
            prelude is Import ==> state_rank(old(self).state) <= 1,
            prelude is Namespace ==> state_rank(old(self).state) <= 2,
        ensures
            state_rank(final(self).state) >= state_rank(old(self).state),
            final(self).context == old(self).context,
            final(self).namespaces.default == old(self).namespaces.default,
            final(self).namespaces.entries@ == old(self).namespaces.entries@,
            prelude matches AtRuleBlockPrelude::Import(rule) ==> r == Ok::<_, ()>(
                CssRule::Import(rule),
            ) && final(self).state == State::Imports,
            prelude matches AtRuleBlockPrelude::Namespace(rule) ==> r == Ok::<_, ()>(
                CssRule::Namespace(rule),
            ) && final(self).state == State::Namespaces,
            !(prelude is Import) && !(prelude is Namespace) ==> r is Err && *final(self) == *old(self),
    {
        match prelude {
            AtRuleBlockPrelude::Import(rule) => {
                self.state = State::Imports;
                Ok(CssRule::Import(rule))
            },
            AtRuleBlockPrelude::Namespace(rule) => {
                self.state = State::Namespaces;
                Ok(CssRule::Namespace(rule))
            },
            _ => Err(()),
        }
    }

    /// Parses a recognized at-rule's block through the nested grammar; on
    /// success the state is at `Body`.
    pub fn parse_block(&mut self, prelude: AtRuleBlockPrelude, input: &mut TokenStream) -> (r:
        Result<CssRule, PreciseParseError>)
        requires
            old(input).wf(),
            state_rank(old(self).state) <= 3,
        ensures
            final(input).wf(),
            final(input).tokens@ == old(input).tokens@,
            old(input).pos <= final(input).pos,
            state_rank(final(self).state) >= state_rank(old(self).state),
            final(self).context == old(self).context,
            final(self).namespaces.default == old(self).namespaces.default,
            final(self).namespaces.entries@ == old(self).namespaces.entries@,
            r is Ok ==> final(self).state == State::Body,
            r is Err ==> final(self).state == old(self).state,
            prelude is Import ==> r is Err,
            prelude is Namespace ==> r is Err,
            prelude matches AtRuleBlockPrelude::CounterStyle(n) ==> (r matches Ok(rule) ==> rule
                matches CssRule::CounterStyle(cs) && cs.name == n),
            prelude matches AtRuleBlockPrelude::Document(vp, cond) ==> (r matches Ok(rule) ==> rule
                matches CssRule::Document(d) && d.vendor_prefix == vp && d.condition == cond),
            prelude is FontFace ==> (r matches Ok(rule) ==> rule is FontFace),
            prelude matches AtRuleBlockPrelude::FontFeatureValues(names) ==> (r matches Ok(rule)
                ==> rule matches CssRule::FontFeatureValues(f) && f.family_names@ == names@),
            prelude matches AtRuleBlockPrelude::Keyframes(vp, kn) ==> (r matches Ok(rule) ==> rule
                matches CssRule::Keyframes(k) && k.vendor_prefix == vp && k.name == kn),
            prelude matches AtRuleBlockPrelude::Media(q) ==> (r matches Ok(rule) ==> rule
                matches CssRule::Media(m) && m.media_queries == q),
            prelude matches AtRuleBlockPrelude::Page(psc) ==> (r matches Ok(rule) ==> rule
                matches CssRule::Page(pg) && pg.page_selector_pseudo_class == psc),
            prelude matches AtRuleBlockPrelude::Supports(c) ==> (r matches Ok(rule) ==> rule
                matches CssRule::Supports(sr) && sr.condition == c),
            prelude matches AtRuleBlockPrelude::Viewport(vp) ==> (r matches Ok(rule) ==> rule
                matches CssRule::Viewport(v) && v.vendor_prefix == vp),
    {
        let result = {
            let nested = self.nested();
            nested.parse_block(prelude, input)
        };
        match result {
            Ok(rule) => {
                self.state = State::Body;
                Ok(rule)
            },
            Err(e) => Err(e),
        }
    }

    /// The `@import` prelude: a URL or string, then the media query list.
    pub fn parseImportAtRule(&self, input: &mut TokenStream) -> (r: Result<
        ImportAtRule,
        PreciseParseError,
    >)
        requires
            old(input).wf(),
        ensures
            final(input).wf(),
            final(input).tokens@ == old(input).tokens@,
            old(input).pos <= final(input).pos,
            ({
                let j = old(input).spec_next_pos();
                let toks = old(input).tokens@;
                &&& j < toks.len() ==> (toks[j] matches CssToken::QuotedString(s) ==> (r matches Ok(
                    rule,
                ) && rule.url.0@ == s@))
                &&& j < toks.len() ==> (toks[j] matches CssToken::UnquotedUrl(s) ==> (r matches Ok(
                    rule,
                ) && rule.url.0@ == s@))
                &&& j < toks.len() && !(toks[j] is QuotedString) && !(toks[j] is UnquotedUrl)
                    && !(toks[j] is Function) ==> r is Err
                &&& j == toks.len() ==> r is Err
            }),
    {
        let url = match input.expect_url_or_string() {
            Ok(u) => u,
            Err(e) => {
                return Err(e);
            },
        };
        let media_list = match MediaList::parse_media_query_list(&self.context, input, false) {
            Ok(m) => m,
            Err(e) => {
                return Err(e);
            },
        };
        Ok(ImportAtRule { url: SpecifiedUrl(url), media_list })
    }

    /// The `@namespace` prelude: an optional prefix and a URL or string;
    /// the shared table gains the declaration while the ordering window is
    /// still open.
    pub fn parseNamespaceAtRule(&mut self, input: &mut TokenStream) -> (r: Result<
        NamespaceAtRule,
        PreciseParseError,
    >)
        requires
            old(input).wf(),
        ensures
            final(input).wf(),
            final(input).tokens@ == old(input).tokens@,
            old(input).pos <= final(input).pos,
            final(self).state == old(self).state,
            final(self).context == old(self).context,
            r matches Ok(rule) ==> {
                &&& rule.prefix matches Some(p) ==> final(self).namespaces.default == old(self).namespaces.default && final(self).namespaces.spec_lookup(p.0@) == Some(
                    rule.url.0@,
                ) && (forall|q: Seq<char>|
                    q != p.0@ ==> #[trigger] final(self).namespaces.spec_lookup(q) == old(self).namespaces.spec_lookup(q))
                &&& rule.prefix is None ==> final(self).namespaces.default == Some(rule.url)
                    && final(self).namespaces.entries@ == old(self).namespaces.entries@
            },
            r is Err ==> final(self).namespaces.default == old(self).namespaces.default && final(self).namespaces.entries@ == old(self).namespaces.entries@,
            ({
                let j = old(input).spec_next_pos();
                let toks = old(input).tokens@;
                &&& j < toks.len() ==> (toks[j] matches CssToken::QuotedString(s) ==> (r matches Ok(
                    rule,
                ) && rule.prefix is None && rule.url.0@ == s@))
                &&& j < toks.len() ==> (toks[j] matches CssToken::UnquotedUrl(s) ==> (r matches Ok(
                    rule,
                ) && rule.prefix is None && rule.url.0@ == s@))
                &&& j < toks.len() ==> (toks[j] matches CssToken::Ident(pn) ==> ({
                    let k = crate::tokens::next_non_ws(toks, j + 1);
                    &&& k < toks.len() ==> (toks[k] matches CssToken::QuotedString(s) ==> (
                    r matches Ok(rule) && rule.prefix matches Some(pfx) && pfx.0@ == pn@
                        && rule.url.0@ == s@))
                    &&& k < toks.len() ==> (toks[k] matches CssToken::UnquotedUrl(s) ==> (
                    r matches Ok(rule) && rule.prefix matches Some(pfx) && pfx.0@ == pn@
                        && rule.url.0@ == s@))
                    &&& k < toks.len() && !(toks[k] is QuotedString) && !(toks[k] is UnquotedUrl)
                        && !(toks[k] is Function) ==> (r matches Err(e) && e.kind
                        matches ParseErrorKind::Custom(ce) && ce
                        matches CustomParseError::UnexpectedTokenForAtNamespaceRuleNamespaceValue(
                        t,
                    ) && t == toks[k])
                    &&& k == toks.len() ==> r is Err
                }))
                &&& j < toks.len() && !(toks[j] is Ident) && !(toks[j] is QuotedString) && !(
                toks[j] is UnquotedUrl) && !(toks[j] is Function) ==> (r matches Err(e) && e.kind
                    matches ParseErrorKind::Custom(ce) && ce
                    matches CustomParseError::UnexpectedTokenForAtNamespaceRuleNamespaceValue(t)
                    && t == toks[j])
                &&& j == toks.len() ==> r is Err
            }),
    {
        let save = input.position();
        let prefix: Option<NamespacePrefix> = match input.expect_ident() {
            Ok(ident) => Some(NamespacePrefix(ident)),
            Err(_) => {
                input.reset(save);
                None
            },
        };
        let url = match input.expect_url_or_string() {
            Ok(u) => NamespaceUrl(u),
            Err(e) => {
                match e.kind {
                    ParseErrorKind::UnexpectedToken(t) => {
                        return Err(
                            input.new_custom_error(
                                CustomParseError::UnexpectedTokenForAtNamespaceRuleNamespaceValue(
                                    t,
                                ),
                            ),
                        );
                    },
                    _ => {
                        return Err(e);
                    },
                }
            },
        };
        match &prefix {
            Some(p) => {
                let url_clone = url.clone();
                self.namespaces.update(Some(p), &url_clone);
                proof {
                    assert forall|q: Seq<char>| true implies ({
                        &&& q == p.0@ ==> #[trigger] self.namespaces.spec_lookup(q) == Some(
                            url.0@,
                        )
                        &&& q != p.0@ ==> self.namespaces.spec_lookup(q) == old(self).namespaces.spec_lookup(q)
                    }) by {
                        crate::namespaces::lemma_lookup_after_update(
                            old(self).namespaces.entries@,
                            *p,
                            url_clone,
                            q,
                        );
                    }
                }
            },
            None => {
                let url_clone = url.clone();
                self.namespaces.update(None, &url_clone);
            },
        }
        Ok(NamespaceAtRule { prefix, url })
    }

    /// Parses a whole top-level rule list: rules in source order, one
    /// malformed rule skipped at its boundary, but an ordering violation or
    /// a malformed `@charset`/`@import`/`@namespace` prelude aborts the
    /// parse, since it corrupts the shared ordering state.
    #[verifier::loop_isolation(false)]
    pub fn parse_top_level_rule_list(&mut self, input: &mut TokenStream) -> (r: Result<
        Vec<CssRule>,
        PreciseParseError,
    >)
        requires
            old(input).wf(),
            state_rank(old(self).state) <= 3,
        ensures
            final(input).wf(),
            final(input).tokens@ == old(input).tokens@,
            old(input).pos <= final(input).pos,
            state_rank(final(self).state) >= state_rank(old(self).state),
            state_rank(final(self).state) <= 3,
            final(self).context == old(self).context,
            ({
                let j = old(input).spec_next_pos();
                let toks = old(input).tokens@;
                j == toks.len() ==> (r matches Ok(rules) && rules@.len() == 0)
            }),
            ({
                let j = old(input).spec_next_pos();
                let toks = old(input).tokens@;
                let k = crate::tokens::next_non_ws(toks, j + 1);
                let m = crate::tokens::next_non_ws(toks, k + 1);
                let q = crate::tokens::next_non_ws(toks, m + 1);
                j < toks.len() ==> (toks[j] matches CssToken::Ident(nm) ==> (
                crate::parsers::our_selector_parser::spec_lone_ident_selector(toks, j) && k
                    < toks.len() && toks[k] is CurlyBracketBlock && m < toks.len() && toks[m]
                    is CloseCurlyBracket && q == toks.len() ==> (r matches Ok(rules)
                    && rules@.len() == 1 && (rules@[0] matches CssRule::Style(st)
                    && st.selectors.0@.len() == 1 && st.selectors.0@[0].first.type_selector
                    == Some(
                    (crate::selectors::TypeSelector {
                        namespace: crate::selectors::NamespaceConstraint::DefaultNamespace,
                        local: crate::selectors::LocalName::Named(nm),
                    }),
                ) && st.property_declarations.0@.len() == 0))))
            }),
            ({
                let j = old(input).spec_next_pos();
                let toks = old(input).tokens@;
                let k = crate::tokens::next_non_ws(toks, j + 1);
                j < toks.len() ==> (toks[j] matches CssToken::AtKeyword(kw) ==> (
                eq_ignore_ascii_case_seq(kw@, "import"@) && state_rank(old(self).state) <= 1
                    ==> {
                    &&& k < toks.len() ==> (toks[k] matches CssToken::QuotedString(u) ==> (
                    r matches Ok(rules) ==> rules@.len() >= 1 && (rules@[0]
                        matches CssRule::Import(im) && im.url.0@ == u@)))
                    &&& k < toks.len() ==> (toks[k] matches CssToken::UnquotedUrl(u) ==> (
                    r matches Ok(rules) ==> rules@.len() >= 1 && (rules@[0]
                        matches CssRule::Import(im) && im.url.0@ == u@)))
                }))
            }),
    {
        let empty_pseudo_classes: Vec<(VendorPrefixablePseudoClassName, VendorPrefix)> =
            Vec::new();
        let empty_pseudo_elements: Vec<(VendorPrefixablePseudoElementName, VendorPrefix)> =
            Vec::new();
        let mut rules: Vec<CssRule> = Vec::new();
        loop
            invariant
                input.wf(),
                input.tokens@ == old(input).tokens@,
                old(input).pos <= input.pos,
                state_rank(self.state) >= state_rank(old(self).state),
                state_rank(self.state) <= 3,
                self.context == old(self).context,
                ({
                    let j = old(input).spec_next_pos();
                    let toks = old(input).tokens@;
                    j == toks.len() ==> input.pos == old(input).pos && rules@.len() == 0
                }),
                ({
                    let j = old(input).spec_next_pos();
                    let toks = old(input).tokens@;
                    let k = crate::tokens::next_non_ws(toks, j + 1);
                    let m = crate::tokens::next_non_ws(toks, k + 1);
                    let q = crate::tokens::next_non_ws(toks, m + 1);
                    j < toks.len() ==> (toks[j] matches CssToken::Ident(nm) ==> (
                    crate::parsers::our_selector_parser::spec_lone_ident_selector(toks, j) && k
                        < toks.len() && toks[k] is CurlyBracketBlock && m < toks.len() && toks[m]
                        is CloseCurlyBracket && q == toks.len() ==> ((rules@.len() == 0
                        && input.pos == old(input).pos) || (rules@.len() == 1 && (rules@[0]
                        matches CssRule::Style(st) && st.selectors.0@.len() == 1
                        && st.selectors.0@[0].first.type_selector == Some(
                        (crate::selectors::TypeSelector {
                            namespace: crate::selectors::NamespaceConstraint::DefaultNamespace,
                            local: crate::selectors::LocalName::Named(nm),
                        }),
                    ) && st.property_declarations.0@.len() == 0) && input.pos == m + 1))))
                }),
                ({
                    let j = old(input).spec_next_pos();
                    let toks = old(input).tokens@;
                    j < toks.len() ==> (toks[j] matches CssToken::AtKeyword(kw) ==> (
                    eq_ignore_ascii_case_seq(kw@, "import"@) && state_rank(old(self).state) <= 1
                        ==> (rules@.len() == 0 ==> input.pos == old(input).pos && self.state
                        == old(self).state)))
                }),
                ({
                    let j = old(input).spec_next_pos();
                    let toks = old(input).tokens@;
                    let k = crate::tokens::next_non_ws(toks, j + 1);
                    j < toks.len() ==> (toks[j] matches CssToken::AtKeyword(kw) ==> (
                    eq_ignore_ascii_case_seq(kw@, "import"@) && state_rank(old(self).state) <= 1
                        ==> {
                        &&& k < toks.len() ==> (toks[k] matches CssToken::QuotedString(u) ==> (
                        rules@.len() >= 1 ==> (rules@[0] matches CssRule::Import(im) && im.url.0@
                            == u@)))
                        &&& k < toks.len() ==> (toks[k] matches CssToken::UnquotedUrl(u) ==> (
                        rules@.len() >= 1 ==> (rules@[0] matches CssRule::Import(im) && im.url.0@
                            == u@)))
                    }))
                }),
            decreases input.tokens@.len() - input.pos,
        {
            input.skip_whitespace();
            let save = input.position();
            match input.peek() {
                None => {
                    return Ok(rules);
                },
                Some(CssToken::CloseCurlyBracket) => {
                    let _ = match input.next() {
                        Ok(t) => t,
                        Err(e) => {
                            return Err(e);
                        },
                    };
                },
                Some(CssToken::AtKeyword(_)) => {
                    let name = match input.next() {
                        Ok(CssToken::AtKeyword(name)) => name,
                        Ok(t) => {
                            return Err(input.new_unexpected_token_error(t));
                        },
                        Err(e) => {
                            return Err(e);
                        },
                    };
                    let ordering_sensitive = ascii_case_insensitive_eq(name.as_str(), "charset")
                        || ascii_case_insensitive_eq(name.as_str(), "import")
                        || ascii_case_insensitive_eq(name.as_str(), "namespace");
                    match self.parse_prelude(name, input) {
                        Err(e) => {
                            if ordering_sensitive {
                                return Err(e);
                            }
                            input.reset(save);
                            input.skip_invalid_rule();
                        },
                        Ok(prelude) => {
                            let is_body_less = matches!(
                                prelude,
                                AtRuleBlockPrelude::Import(_) | AtRuleBlockPrelude::Namespace(_)
                            );
                            if is_body_less {
                                match input.next() {
                                    Ok(CssToken::Semicolon) => {},
                                    Ok(t) => {
                                        return Err(input.new_unexpected_token_error(t));
                                    },
                                    Err(e) => {
                                        return Err(e);
                                    },
                                }
                                match self.rule_without_block(prelude) {
                                    Ok(rule) => {
                                        rules.push(rule);
                                    },
                                    Err(()) => {
                                        input.reset(save);
                                        input.skip_invalid_rule();
                                    },
                                }
                            } else {
                                let ok = match input.peek() {
                                    Some(CssToken::CurlyBracketBlock) => {
                                        let _ = match input.next() {
                                            Ok(t) => t,
                                            Err(e) => {
                                                return Err(e);
                                            },
                                        };
                                        match self.parse_block(prelude, input) {
                                            Ok(rule) => {
                                                rules.push(rule);
                                                true
                                            },
                                            Err(_) => false,
                                        }
                                    },
                                    _ => false,
                                };
                                if !ok {
                                    input.reset(save);
                                    input.skip_invalid_rule();
                                }
                            }
                        },
                    }
                },
                Some(_) => {
                    let ok = {
                        let selector_parser = OurSelectorParser {
                            namespaces: &self.namespaces,
                            applyVendorPrefixToPseudoClasses: &empty_pseudo_classes,
                            applyVendorPrefixToPseudoElements: &empty_pseudo_elements,
                        };
                        match selector_parser.parse_internal(input, SelectorRestriction::AllowAll) {
                            Ok(selectors) => {
                                match input.peek() {
                                    Some(CssToken::CurlyBracketBlock) => {
                                        let _ = match input.next() {
                                            Ok(t) => t,
                                            Err(e) => {
                                                return Err(e);
                                            },
                                        };
                                        let style_context = ParserContext::new_with_rule_type(
                                            &self.context,
                                            CssRuleType::Style,
                                        );
                                        match PropertyDeclarations::parse_property_declaration_list(
                                            &style_context,
                                            input,
                                        ) {
                                            Ok(property_declarations) => {
                                                rules.push(
                                                    CssRule::Style(
                                                        StyleRule {
                                                            selectors,
                                                            property_declarations,
                                                        },
                                                    ),
                                                );
                                                true
                                            },
                                            Err(_) => false,
                                        }
                                    },
                                    _ => false,
                                }
                            },
                            Err(_) => false,
                        }
                    };
                    if ok {
                        self.state = State::Body;
                    } else {
                        input.reset(save);
                        input.skip_invalid_rule();
                    }
                },
            }
        }
    }
}

} // verus!
