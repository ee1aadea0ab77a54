//! The selector parser: comma-separated selector lists from the token
//! stream, with namespace prefixes resolved against the shared table,
//! vendor-prefixable pseudo-classes and pseudo-elements recognized, and the
//! result deduplicated by canonical serialization.

use vstd::prelude::*;
use crate::ascii::ascii_case_insensitive_eq;
use crate::ascii::eq_ignore_ascii_case_seq;
use crate::errors::CustomParseError;
use crate::errors::ParseErrorKind;
use crate::errors::PreciseParseError;
use crate::errors::SelectorParseError;
use crate::errors::spec_selector_grammar_error;
use crate::namespaces::NamespacePrefix;
use crate::namespaces::Namespaces;
use crate::namespaces::NamespaceUrl;
use crate::selectors::Combinator;
use crate::selectors::CompoundSelector;
use crate::selectors::DeduplicatedSelectors;
use crate::selectors::LocalName;
use crate::selectors::NamespaceConstraint;
use crate::selectors::NonTreeStructuralPseudoClass;
use crate::selectors::OurSelector;
use crate::selectors::PseudoElement;
use crate::selectors::SelectorRestriction;
use crate::selectors::SimpleSelector;
use crate::selectors::TypeSelector;
use crate::selectors::VendorPrefix;
use crate::selectors::VendorPrefixablePseudoClassName;
use crate::selectors::VendorPrefixablePseudoElementName;
use crate::selectors::compound_namespaces_resolved;
use crate::selectors::dedup_selectors;
use crate::selectors::deduplicate;
use crate::selectors::is_invalid_selector;
use crate::selectors::lemma_dedup_elements;
use crate::selectors::lemma_dedup_len;
use crate::selectors::lemma_dedup_no_duplicate_keys;
use crate::selectors::selector_css;
use crate::selectors::selector_namespaces_resolved;
use crate::selectors::first_invalid_selector;
use crate::selectors::spec_is_invalid_selector;
use crate::selectors::validate_and_deduplicate;
use crate::tokens::CssToken;
use crate::tokens::TokenStream;

verus! {

/// A failure of the selector sub-grammar, wrapped for the main taxonomy, at
/// the current position.
fn selector_error(input: &TokenStream, e: SelectorParseError) -> (r: PreciseParseError)
    ensures
        r.kind == ParseErrorKind::Custom(CustomParseError::SpecificSelectorParseError(e)),
        r.at == input.pos,
{
    input.new_custom_error(CustomParseError::SpecificSelectorParseError(e))
}

/// First-match lookup in the configured pseudo-class prefix table.
pub open spec fn spec_pseudo_class_prefix(
    table: Seq<(VendorPrefixablePseudoClassName, VendorPrefix)>,
    name: VendorPrefixablePseudoClassName,
) -> Option<VendorPrefix>
    decreases table.len(),
{
    if table.len() == 0 {
        None
    } else if table[0].0 == name {
        Some(table[0].1)
    } else {
        spec_pseudo_class_prefix(table.skip(1), name)
    }
}

/// First-match lookup in the configured pseudo-element prefix table.
pub open spec fn spec_pseudo_element_prefix(
    table: Seq<(VendorPrefixablePseudoElementName, VendorPrefix)>,
    name: VendorPrefixablePseudoElementName,
) -> Option<VendorPrefix>
    decreases table.len(),
{
    if table.len() == 0 {
        None
    } else if table[0].0 == name {
        Some(table[0].1)
    } else {
        spec_pseudo_element_prefix(table.skip(1), name)
    }
}

#[verifier::loop_isolation(false)]
fn pseudo_class_prefix_lookup(
    table: &Vec<(VendorPrefixablePseudoClassName, VendorPrefix)>,
    name: VendorPrefixablePseudoClassName,
) -> (r: Option<VendorPrefix>)
    ensures
        r == spec_pseudo_class_prefix(table@, name),
{
    proof {
        assert(table@.skip(0) =~= table@);
    }
    let mut i: usize = 0;
    while i < table.len()
        invariant
            0 <= i <= table@.len(),
            spec_pseudo_class_prefix(table@.skip(i as int), name) == spec_pseudo_class_prefix(
                table@,
                name,
            ),
        decreases table@.len() - i,
    {
        proof {
            assert(table@.skip(i as int)[0] == table@[i as int]);
            assert(table@.skip(i as int).skip(1) =~= table@.skip(i + 1));
        }
        if table[i].0 == name {
            return Some(table[i].1);
        }
        i = i + 1;
    }
    None
}

#[verifier::loop_isolation(false)]
fn pseudo_element_prefix_lookup(
    table: &Vec<(VendorPrefixablePseudoElementName, VendorPrefix)>,
    name: VendorPrefixablePseudoElementName,
) -> (r: Option<VendorPrefix>)
    ensures
        r == spec_pseudo_element_prefix(table@, name),
{
    proof {
        assert(table@.skip(0) =~= table@);
    }
    let mut i: usize = 0;
    while i < table.len()
        invariant
            0 <= i <= table@.len(),
            spec_pseudo_element_prefix(table@.skip(i as int), name) == spec_pseudo_element_prefix(
                table@,
                name,
            ),
        decreases table@.len() - i,
    {
        proof {
            assert(table@.skip(i as int)[0] == table@[i as int]);
            assert(table@.skip(i as int).skip(1) =~= table@.skip(i + 1));
        }
        if table[i].0 == name {
            return Some(table[i].1);
        }
        i = i + 1;
    }
    None
}

/// A compound selector that is one bare identifier: nothing follows it at
/// its own position but whitespace or the end, and the next significant
/// token neither extends the compound nor names a namespace.
pub open spec fn spec_lone_ident_compound(toks: Seq<CssToken>, j: int) -> bool {
    &&& !(j + 1 < toks.len() && toks[j + 1] == CssToken::Delim('|'))
    &&& (j + 1 == toks.len() || toks[j + 1] is WhiteSpace || toks[j + 1] is CurlyBracketBlock
        || toks[j + 1] is Comma)
}

/// A complex selector that is one bare identifier: the compound is lone,
/// and the next significant token ends the selector rather than starting a
/// combinator.
pub open spec fn spec_lone_ident_selector(toks: Seq<CssToken>, j: int) -> bool {
    &&& spec_lone_ident_compound(toks, j)
    &&& ({
        let k = crate::tokens::next_non_ws(toks, j + 1);
        k == toks.len() || (k < toks.len() && (toks[k] is CurlyBracketBlock || toks[k] is Comma))
    })
}

/// The selector adapter: it resolves namespace prefixes against the shared
/// table and recognizes pseudo-classes and pseudo-elements, applying the
/// configured vendor prefixes.
pub struct OurSelectorParser<'a> {
    pub namespaces: &'a Namespaces,
    pub applyVendorPrefixToPseudoClasses: &'a Vec<(VendorPrefixablePseudoClassName, VendorPrefix)>,
    pub applyVendorPrefixToPseudoElements: &'a Vec<
        (VendorPrefixablePseudoElementName, VendorPrefix),
    >,
}

impl<'a> OurSelectorParser<'a> {
    /// Recognizes a pseudo-class written without arguments. The cases are
    /// tried in order; `:scope` is rejected as obsolete, anything unknown as
    /// unsupported.
    pub fn parse_non_ts_pseudo_class(&self, name: String) -> (r: Result<
        NonTreeStructuralPseudoClass,
        SelectorParseError,
    >)
        ensures
            eq_ignore_ascii_case_seq(name@, "active"@) ==> r == Ok::<_, SelectorParseError>(
                NonTreeStructuralPseudoClass::Active,
            ),
            !eq_ignore_ascii_case_seq(name@, "active"@) && eq_ignore_ascii_case_seq(
                name@,
                "any-link"@,
            ) ==> r == Ok::<_, SelectorParseError>(
                NonTreeStructuralPseudoClass::AnyLink(
                    spec_pseudo_class_prefix(
                        self.applyVendorPrefixToPseudoClasses@,
                        VendorPrefixablePseudoClassName::any_link,
                    ),
                ),
            ),
            spec_known_names_miss(name@, 2) && eq_ignore_ascii_case_seq(name@, "checked"@) ==> r
                == Ok::<_, SelectorParseError>(NonTreeStructuralPseudoClass::Checked),
            spec_known_names_miss(name@, 3) && eq_ignore_ascii_case_seq(name@, "disabled"@) ==> r
                == Ok::<_, SelectorParseError>(NonTreeStructuralPseudoClass::Disabled),
            spec_known_names_miss(name@, 4) && eq_ignore_ascii_case_seq(name@, "enabled"@) ==> r
                == Ok::<_, SelectorParseError>(NonTreeStructuralPseudoClass::Enabled),
            spec_known_names_miss(name@, 5) && eq_ignore_ascii_case_seq(name@, "focus"@) ==> r
                == Ok::<_, SelectorParseError>(NonTreeStructuralPseudoClass::Focus),
            spec_known_names_miss(name@, 6) && eq_ignore_ascii_case_seq(name@, "fullscreen"@)
                ==> r == Ok::<_, SelectorParseError>(
                NonTreeStructuralPseudoClass::Fullscreen(
                    spec_pseudo_class_prefix(
                        self.applyVendorPrefixToPseudoClasses@,
                        VendorPrefixablePseudoClassName::fullscreen,
                    ),
                ),
            ),
            spec_known_names_miss(name@, 7) && eq_ignore_ascii_case_seq(name@, "hover"@) ==> r
                == Ok::<_, SelectorParseError>(NonTreeStructuralPseudoClass::Hover),
            spec_known_names_miss(name@, 8) && eq_ignore_ascii_case_seq(name@, "indeterminate"@)
                ==> r == Ok::<_, SelectorParseError>(NonTreeStructuralPseudoClass::Indeterminate),
            spec_known_names_miss(name@, 9) && eq_ignore_ascii_case_seq(name@, "link"@) ==> r
                == Ok::<_, SelectorParseError>(NonTreeStructuralPseudoClass::Link),
            spec_known_names_miss(name@, 10) && eq_ignore_ascii_case_seq(name@, "read-only"@)
                ==> r == Ok::<_, SelectorParseError>(NonTreeStructuralPseudoClass::ReadOnly),
            spec_known_names_miss(name@, 11) && eq_ignore_ascii_case_seq(name@, "read-write"@)
                ==> r == Ok::<_, SelectorParseError>(NonTreeStructuralPseudoClass::ReadWrite),
            spec_known_names_miss(name@, 12) && eq_ignore_ascii_case_seq(name@, "target"@) ==> r
                == Ok::<_, SelectorParseError>(NonTreeStructuralPseudoClass::Target),
            spec_known_names_miss(name@, 13) && eq_ignore_ascii_case_seq(name@, "visited"@) ==> r
                == Ok::<_, SelectorParseError>(NonTreeStructuralPseudoClass::Visited),
            spec_known_names_miss(name@, 14) && eq_ignore_ascii_case_seq(name@, "scope"@) ==> (
            r matches Err(e) && e matches SelectorParseError::Custom(b) && *b
                == CustomParseError::NonTreeStructuralPseudoClassScopeIsObsoleteAsOfFirefox55),
            spec_known_names_miss(name@, 15) ==> (r matches Err(e) && e
                matches SelectorParseError::Custom(b) && *b
                matches CustomParseError::UnsupportedPseudoClassOrElement(s) && s@ == name@),
    {
        if ascii_case_insensitive_eq(name.as_str(), "active") {
            Ok(NonTreeStructuralPseudoClass::Active)
        } else if ascii_case_insensitive_eq(name.as_str(), "any-link") {
            Ok(
                NonTreeStructuralPseudoClass::AnyLink(
                    pseudo_class_prefix_lookup(
                        self.applyVendorPrefixToPseudoClasses,
                        VendorPrefixablePseudoClassName::any_link,
                    ),
                ),
            )
        } else if ascii_case_insensitive_eq(name.as_str(), "checked") {
            Ok(NonTreeStructuralPseudoClass::Checked)
        } else if ascii_case_insensitive_eq(name.as_str(), "disabled") {
            Ok(NonTreeStructuralPseudoClass::Disabled)
        } else if ascii_case_insensitive_eq(name.as_str(), "enabled") {
            Ok(NonTreeStructuralPseudoClass::Enabled)
        } else if ascii_case_insensitive_eq(name.as_str(), "focus") {
            Ok(NonTreeStructuralPseudoClass::Focus)
        } else if ascii_case_insensitive_eq(name.as_str(), "fullscreen") {
            Ok(
                NonTreeStructuralPseudoClass::Fullscreen(
                    pseudo_class_prefix_lookup(
                        self.applyVendorPrefixToPseudoClasses,
                        VendorPrefixablePseudoClassName::fullscreen,
                    ),
                ),
            )
        } else if ascii_case_insensitive_eq(name.as_str(), "hover") {
            Ok(NonTreeStructuralPseudoClass::Hover)
        } else if ascii_case_insensitive_eq(name.as_str(), "indeterminate") {
            Ok(NonTreeStructuralPseudoClass::Indeterminate)
        } else if ascii_case_insensitive_eq(name.as_str(), "link") {
            Ok(NonTreeStructuralPseudoClass::Link)
        } else if ascii_case_insensitive_eq(name.as_str(), "read-only") {
            Ok(NonTreeStructuralPseudoClass::ReadOnly)
        } else if ascii_case_insensitive_eq(name.as_str(), "read-write") {
            Ok(NonTreeStructuralPseudoClass::ReadWrite)
        } else if ascii_case_insensitive_eq(name.as_str(), "target") {
            Ok(NonTreeStructuralPseudoClass::Target)
        } else if ascii_case_insensitive_eq(name.as_str(), "visited") {
            Ok(NonTreeStructuralPseudoClass::Visited)
        } else if ascii_case_insensitive_eq(name.as_str(), "scope") {
            Err(
                SelectorParseError::Custom(
                    Box::new(
                        CustomParseError::NonTreeStructuralPseudoClassScopeIsObsoleteAsOfFirefox55,
                    ),
                ),
            )
        } else {
            Err(
                SelectorParseError::Custom(
                    Box::new(CustomParseError::UnsupportedPseudoClassOrElement(name)),
                ),
            )
        }
    }

    /// Recognizes a pseudo-element name, applying the configured vendor
    /// prefix where the table directs one.
    pub fn parse_pseudo_element(&self, name: String) -> (r: Result<
        PseudoElement,
        SelectorParseError,
    >)
        ensures
            eq_ignore_ascii_case_seq(name@, "after"@) ==> r == Ok::<_, SelectorParseError>(
                PseudoElement::After,
            ),
            !eq_ignore_ascii_case_seq(name@, "after"@) && eq_ignore_ascii_case_seq(
                name@,
                "before"@,
            ) ==> r == Ok::<_, SelectorParseError>(PseudoElement::Before),
            spec_pseudo_element_names_miss(name@, 2) && eq_ignore_ascii_case_seq(
                name@,
                "first-letter"@,
            ) ==> r == Ok::<_, SelectorParseError>(PseudoElement::FirstLetter),
            spec_pseudo_element_names_miss(name@, 3) && eq_ignore_ascii_case_seq(
                name@,
                "first-line"@,
            ) ==> r == Ok::<_, SelectorParseError>(PseudoElement::FirstLine),
            spec_pseudo_element_names_miss(name@, 4) && eq_ignore_ascii_case_seq(
                name@,
                "placeholder"@,
            ) ==> r == Ok::<_, SelectorParseError>(
                PseudoElement::Placeholder(
                    spec_pseudo_element_prefix(
                        self.applyVendorPrefixToPseudoElements@,
                        VendorPrefixablePseudoElementName::placeholder,
                    ),
                ),
            ),
            spec_pseudo_element_names_miss(name@, 5) && eq_ignore_ascii_case_seq(
                name@,
                "selection"@,
            ) ==> r == Ok::<_, SelectorParseError>(
                PseudoElement::Selection(
                    spec_pseudo_element_prefix(
                        self.applyVendorPrefixToPseudoElements@,
                        VendorPrefixablePseudoElementName::selection,
                    ),
                ),
            ),
            spec_pseudo_element_names_miss(name@, 6) ==> (r matches Err(e) && e
                matches SelectorParseError::Custom(b) && *b
                matches CustomParseError::UnsupportedPseudoClassOrElement(s) && s@ == name@),
    {
        if ascii_case_insensitive_eq(name.as_str(), "after") {
            Ok(PseudoElement::After)
        } else if ascii_case_insensitive_eq(name.as_str(), "before") {
            Ok(PseudoElement::Before)
        } else if ascii_case_insensitive_eq(name.as_str(), "first-letter") {
            Ok(PseudoElement::FirstLetter)
        } else if ascii_case_insensitive_eq(name.as_str(), "first-line") {
            Ok(PseudoElement::FirstLine)
        } else if ascii_case_insensitive_eq(name.as_str(), "placeholder") {
            Ok(
                PseudoElement::Placeholder(
                    pseudo_element_prefix_lookup(
                        self.applyVendorPrefixToPseudoElements,
                        VendorPrefixablePseudoElementName::placeholder,
                    ),
                ),
            )
        } else if ascii_case_insensitive_eq(name.as_str(), "selection") {
            Ok(
                PseudoElement::Selection(
                    pseudo_element_prefix_lookup(
                        self.applyVendorPrefixToPseudoElements,
                        VendorPrefixablePseudoElementName::selection,
                    ),
                ),
            )
        } else {
            Err(
                SelectorParseError::Custom(
                    Box::new(CustomParseError::UnsupportedPseudoClassOrElement(name)),
                ),
            )
        }
    }

    /// Recognizes a functional pseudo-class; only `:lang(...)` is known.
    /// The arguments run to the function's closing parenthesis.
    #[verifier::loop_isolation(false)]
    pub fn parse_non_ts_functional_pseudo_class(&self, name: String, input: &mut TokenStream) -> (
        r: Result<NonTreeStructuralPseudoClass, PreciseParseError>)
        requires
            old(input).wf(),
        ensures
            r matches Err(e) ==> spec_selector_grammar_error(e.kind),
            final(input).wf(),
            final(input).tokens@ == old(input).tokens@,
            old(input).pos <= final(input).pos,
            !eq_ignore_ascii_case_seq(name@, "lang"@) ==> (r matches Err(e) && e.kind
                matches ParseErrorKind::Custom(ce) && ce
                matches CustomParseError::UnsupportedPseudoClassOrElement(s) && s@ == name@),
            r matches Ok(pc) ==> pc is Lang && final(input).pos > old(input).pos,
    {
        if !ascii_case_insensitive_eq(name.as_str(), "lang") {
            return Err(input.new_custom_error(CustomParseError::UnsupportedPseudoClassOrElement(name)));
        }
        let mut args: Vec<String> = Vec::new();
        loop
            invariant
                input.wf(),
                input.tokens@ == old(input).tokens@,
                old(input).pos <= input.pos,
            decreases input.tokens@.len() - input.pos,
        {
            let id = match input.expect_ident() {
                Ok(id) => id,
                Err(e) => {
                    return Err(e);
                },
            };
            args.push(id);
            match input.next() {
                Ok(CssToken::Comma) => {},
                Ok(CssToken::CloseParenthesis) => {
                    return Ok(NonTreeStructuralPseudoClass::Lang(args));
                },
                Ok(t) => {
                    return Err(input.new_unexpected_token_error(t));
                },
                Err(e) => {
                    return Err(e);
                },
            }
        }
    }

    /// A functional pseudo-element; none is supported.
    pub fn parse_functional_pseudo_element(&self, name: String, input: &mut TokenStream) -> (r:
        Result<PseudoElement, PreciseParseError>)
        requires
            old(input).wf(),
        ensures
            r matches Err(e) ==> spec_selector_grammar_error(e.kind),
            *final(input) == *old(input),
            r matches Err(e) && e.kind matches ParseErrorKind::Custom(ce) && ce
                matches CustomParseError::UnsupportedPseudoClassOrElement(s) && s@ == name@,
    {
        Err(input.new_custom_error(CustomParseError::UnsupportedPseudoClassOrElement(name)))
    }

    /// The declared default namespace.
    pub fn default_namespace(&self) -> (r: Option<NamespaceUrl>)
        ensures
            r == self.namespaces.default,
    {
        self.namespaces.default_namespace()
    }

    /// What a prefix resolves to in the shared table.
    pub fn namespace_for_prefix(&self, prefix: &NamespacePrefix) -> (r: Option<NamespaceUrl>)
        ensures
            self.namespaces.spec_lookup(prefix.0@) matches Some(url) ==> (r matches Some(u)
                && u.0@ == url),
            self.namespaces.spec_lookup(prefix.0@) is None ==> r is None,
    {
        self.namespaces.namespace_for_prefix(prefix)
    }
}

impl<'a> OurSelectorParser<'a> {
    /// The local part of a type selector, after any namespace handling.
    fn parse_local_name(&self, input: &mut TokenStream) -> (r: Result<
        LocalName,
        PreciseParseError,
    >)
        requires
            old(input).wf(),
        ensures
            r matches Err(e) ==> spec_selector_grammar_error(e.kind),
            final(input).wf(),
            final(input).tokens@ == old(input).tokens@,
            old(input).pos <= final(input).pos,
            r is Ok ==> final(input).pos > old(input).pos,
    {
        match input.next_including_whitespace() {
            Ok(CssToken::Ident(name)) => Ok(LocalName::Named(name)),
            Ok(CssToken::Delim('*')) => Ok(LocalName::Universal),
            Ok(t) => Err(
                selector_error(input, SelectorParseError::UnexpectedTokenInSelector(t)),
            ),
            Err(e) => Err(e),
        }
    }

    /// The optional leading type selector of a compound, with its namespace
    /// prefix resolved; `Ok(None)` consumes nothing.
    fn parse_type_selector_opt(&self, input: &mut TokenStream) -> (r: Result<
        Option<TypeSelector>,
        PreciseParseError,
    >)
        requires
            old(input).wf(),
        ensures
            r matches Err(e) ==> spec_selector_grammar_error(e.kind),
            final(input).wf(),
            final(input).tokens@ == old(input).tokens@,
            old(input).pos <= final(input).pos,
            r matches Ok(Some(_)) ==> final(input).pos > old(input).pos,
            r matches Ok(None) ==> final(input).pos == old(input).pos,
            r matches Ok(Some(t)) ==> (t.namespace matches NamespaceConstraint::Specific(p, u)
                ==> self.namespaces.spec_lookup(p.0@) == Some(u.0@)),
            ({
                let p0 = old(input).pos as int;
                let toks = old(input).tokens@;
                p0 < toks.len() ==> (toks[p0] matches CssToken::Ident(s) ==> (!(p0 + 1 < toks.len()
                    && toks[p0 + 1] == CssToken::Delim('|')) ==> (r == Ok::<
                    Option<TypeSelector>,
                    PreciseParseError,
                >(
                    Some(
                        (TypeSelector {
                            namespace: NamespaceConstraint::DefaultNamespace,
                            local: LocalName::Named(s),
                        }),
                    ),
                ) && final(input).pos == p0 + 1)))
            }),
    {
        let save = input.position();
        match input.next_including_whitespace() {
            Ok(CssToken::Ident(name)) => {
                match input.peek_including_whitespace() {
                    Some(CssToken::Delim('|')) => {
                        let _ = input.next_including_whitespace();
                        let local = match self.parse_local_name(input) {
                            Ok(l) => l,
                            Err(e) => {
                                return Err(e);
                            },
                        };
                        let prefix = NamespacePrefix(name);
                        match self.namespaces.namespace_for_prefix(&prefix) {
                            Some(url) => Ok(
                                Some(
                                    TypeSelector {
                                        namespace: NamespaceConstraint::Specific(prefix, url),
                                        local,
                                    },
                                ),
                            ),
                            None => Err(
                                selector_error(
                                    input,
                                    SelectorParseError::ExpectedNamespaceFor(prefix.0),
                                ),
                            ),
                        }
                    },
                    _ => Ok(
                        Some(
                            TypeSelector {
                                namespace: NamespaceConstraint::DefaultNamespace,
                                local: LocalName::Named(name),
                            },
                        ),
                    ),
                }
            },
            Ok(CssToken::Delim('*')) => {
                match input.peek_including_whitespace() {
                    Some(CssToken::Delim('|')) => {
                        let _ = input.next_including_whitespace();
                        let local = match self.parse_local_name(input) {
                            Ok(l) => l,
                            Err(e) => {
                                return Err(e);
                            },
                        };
                        Ok(
                            Some(
                                TypeSelector { namespace: NamespaceConstraint::AnyNamespace, local },
                            ),
                        )
                    },
                    _ => Ok(
                        Some(
                            TypeSelector {
                                namespace: NamespaceConstraint::DefaultNamespace,
                                local: LocalName::Universal,
                            },
                        ),
                    ),
                }
            },
            Ok(CssToken::Delim('|')) => {
                let local = match self.parse_local_name(input) {
                    Ok(l) => l,
                    Err(e) => {
                        return Err(e);
                    },
                };
                Ok(Some(TypeSelector { namespace: NamespaceConstraint::NoNamespace, local }))
            },
            Ok(_) => {
                input.reset(save);
                Ok(None)
            },
            Err(_) => {
                input.reset(save);
                Ok(None)
            },
        }
    }

    /// One simple selector after the type selector, or `Ok(None)` at the end
    /// of the compound, consuming nothing in that case.
    fn parse_one_simple_selector(&self, input: &mut TokenStream) -> (r: Result<
        Option<SimpleSelector>,
        PreciseParseError,
    >)
        requires
            old(input).wf(),
        ensures
            r matches Err(e) ==> spec_selector_grammar_error(e.kind),
            final(input).wf(),
            final(input).tokens@ == old(input).tokens@,
            old(input).pos <= final(input).pos,
            r matches Ok(Some(_)) ==> final(input).pos > old(input).pos,
            r matches Ok(None) ==> final(input).pos == old(input).pos,
            ({
                let p0 = old(input).pos as int;
                let toks = old(input).tokens@;
                (p0 == toks.len() || (!(toks[p0] is IdHash) && !(toks[p0] is Hash) && !(toks[p0]
                    is Colon) && toks[p0] != CssToken::Delim('.'))) ==> r == Ok::<
                    Option<SimpleSelector>,
                    PreciseParseError,
                >(None)
            }),
    {
        match input.peek_including_whitespace() {
            Some(CssToken::Delim('.')) => {
                let _ = input.next_including_whitespace();
                match input.next_including_whitespace() {
                    Ok(CssToken::Ident(name)) => Ok(Some(SimpleSelector::Class(name))),
                    Ok(t) => Err(
                        selector_error(input, SelectorParseError::UnexpectedTokenInSelector(t)),
                    ),
                    Err(e) => Err(e),
                }
            },
            Some(CssToken::IdHash(name)) => {
                let _ = input.next_including_whitespace();
                Ok(Some(SimpleSelector::Id(name)))
            },
            Some(CssToken::Hash(name)) => {
                let _ = input.next_including_whitespace();
                Err(
                    selector_error(
                        input,
                        SelectorParseError::UnexpectedTokenInSelector(CssToken::Hash(name)),
                    ),
                )
            },
            Some(CssToken::Colon) => {
                let _ = input.next_including_whitespace();
                match input.next_including_whitespace() {
                    Ok(CssToken::Colon) => {
                        match input.next_including_whitespace() {
                            Ok(CssToken::Ident(name)) => {
                                match self.parse_pseudo_element(name) {
                                    Ok(pe) => Ok(Some(SimpleSelector::PseudoElement(pe))),
                                    Err(se) => Err(selector_error(input, se)),
                                }
                            },
                            Ok(CssToken::Function(name)) => {
                                match self.parse_functional_pseudo_element(name, input) {
                                    Ok(pe) => Ok(Some(SimpleSelector::PseudoElement(pe))),
                                    Err(e) => Err(e),
                                }
                            },
                            Ok(_) => Err(
                                selector_error(input, SelectorParseError::PseudoElementExpectedIdent),
                            ),
                            Err(e) => Err(e),
                        }
                    },
                    Ok(CssToken::Ident(name)) => {
                        if ascii_case_insensitive_eq(name.as_str(), "before") {
                            Ok(Some(SimpleSelector::PseudoElement(PseudoElement::Before)))
                        } else if ascii_case_insensitive_eq(name.as_str(), "after") {
                            Ok(Some(SimpleSelector::PseudoElement(PseudoElement::After)))
                        } else if ascii_case_insensitive_eq(name.as_str(), "first-letter") {
                            Ok(Some(SimpleSelector::PseudoElement(PseudoElement::FirstLetter)))
                        } else if ascii_case_insensitive_eq(name.as_str(), "first-line") {
                            Ok(Some(SimpleSelector::PseudoElement(PseudoElement::FirstLine)))
                        } else {
                            match self.parse_non_ts_pseudo_class(name) {
                                Ok(pc) => Ok(Some(SimpleSelector::PseudoClass(pc))),
                                Err(se) => Err(selector_error(input, se)),
                            }
                        }
                    },
                    Ok(CssToken::Function(name)) => {
                        match self.parse_non_ts_functional_pseudo_class(name, input) {
                            Ok(pc) => Ok(Some(SimpleSelector::PseudoClass(pc))),
                            Err(e) => Err(e),
                        }
                    },
                    Ok(_) => Err(selector_error(input, SelectorParseError::NoIdentForPseudo)),
                    Err(e) => Err(e),
                }
            },
            _ => Ok(None),
        }
    }

    /// One compound selector: an optional type selector followed by simple
    /// selectors. An empty compound is an error.
    #[verifier::loop_isolation(false)]
    fn parse_compound_selector(&self, input: &mut TokenStream) -> (r: Result<
        CompoundSelector,
        PreciseParseError,
    >)
        requires
            old(input).wf(),
        ensures
            r matches Err(e) ==> spec_selector_grammar_error(e.kind),
            final(input).wf(),
            final(input).tokens@ == old(input).tokens@,
            old(input).pos <= final(input).pos,
            r matches Ok(c) ==> final(input).pos > old(input).pos && compound_namespaces_resolved(
                *self.namespaces,
                c,
            ),
            ({
                let j = old(input).spec_next_pos();
                let toks = old(input).tokens@;
                j < toks.len() ==> (toks[j] matches CssToken::Ident(s) ==> (!(j + 1 < toks.len()
                    && toks[j + 1] == CssToken::Delim('|')) ==> (r matches Ok(c)
                    ==> c.type_selector == Some(
                    (TypeSelector {
                        namespace: NamespaceConstraint::DefaultNamespace,
                        local: LocalName::Named(s),
                    }),
                ))))
            }),
            ({
                let j = old(input).spec_next_pos();
                let toks = old(input).tokens@;
                j < toks.len() ==> (toks[j] matches CssToken::Ident(s) ==> (
                spec_lone_ident_compound(toks, j) ==> (r matches Ok(c) && c.type_selector == Some(
                    (TypeSelector {
                        namespace: NamespaceConstraint::DefaultNamespace,
                        local: LocalName::Named(s),
                    }),
                ) && c.simples@.len() == 0 && final(input).pos == j + 1)))
            }),
    {
        input.skip_whitespace();
        let type_selector = match self.parse_type_selector_opt(input) {
            Ok(t) => t,
            Err(e) => {
                return Err(e);
            },
        };
        let ghost after_ts = input.pos as int;
        let ghost ts_spec = type_selector;
        let mut simples: Vec<SimpleSelector> = Vec::new();
        loop
            invariant
                input.wf(),
                input.tokens@ == old(input).tokens@,
                after_ts <= input.pos,
                simples@.len() > 0 ==> input.pos > after_ts,
                simples@.len() == 0 ==> input.pos == after_ts,
                type_selector == ts_spec,
                ({
                    let j = old(input).spec_next_pos();
                    let toks = old(input).tokens@;
                    j < toks.len() ==> (toks[j] is Ident ==> (spec_lone_ident_compound(toks, j)
                        ==> simples@.len() == 0 && after_ts == j + 1))
                }),
                ({
                    let j = old(input).spec_next_pos();
                    let toks = old(input).tokens@;
                    j < toks.len() ==> (toks[j] matches CssToken::Ident(s) ==> (!(j + 1
                        < toks.len() && toks[j + 1] == CssToken::Delim('|')) ==> ts_spec == Some(
                        (TypeSelector {
                            namespace: NamespaceConstraint::DefaultNamespace,
                            local: LocalName::Named(s),
                        }),
                    )))
                }),
            decreases input.tokens@.len() - input.pos,
        {
            match self.parse_one_simple_selector(input) {
                Ok(Some(s)) => {
                    simples.push(s);
                },
                Ok(None) => {
                    break ;
                },
                Err(e) => {
                    return Err(e);
                },
            }
        }
        if type_selector.is_none() && simples.len() == 0 {
            Err(selector_error(input, SelectorParseError::EmptySelector))
        } else {
            Ok(CompoundSelector { type_selector, simples })
        }
    }

    /// One complex selector: a compound followed by combinator-joined
    /// compounds.
    #[verifier::loop_isolation(false)]
    fn parse_complex_selector(&self, input: &mut TokenStream) -> (r: Result<
        OurSelector,
        PreciseParseError,
    >)
        requires
            old(input).wf(),
        ensures
            r matches Err(e) ==> spec_selector_grammar_error(e.kind),
            final(input).wf(),
            final(input).tokens@ == old(input).tokens@,
            old(input).pos <= final(input).pos,
            r matches Ok(s) ==> final(input).pos > old(input).pos && selector_namespaces_resolved(
                *self.namespaces,
                s,
            ),
            ({
                let j = old(input).spec_next_pos();
                let toks = old(input).tokens@;
                j < toks.len() ==> (toks[j] matches CssToken::Ident(nm) ==> (!(j + 1 < toks.len()
                    && toks[j + 1] == CssToken::Delim('|')) ==> (r matches Ok(sel)
                    ==> sel.first.type_selector == Some(
                    (TypeSelector {
                        namespace: NamespaceConstraint::DefaultNamespace,
                        local: LocalName::Named(nm),
                    }),
                ))))
            }),
            ({
                let j = old(input).spec_next_pos();
                let toks = old(input).tokens@;
                j < toks.len() ==> (toks[j] matches CssToken::Ident(nm) ==> (
                spec_lone_ident_selector(toks, j) ==> (r matches Ok(sel)
                    && sel.first.type_selector == Some(
                    (TypeSelector {
                        namespace: NamespaceConstraint::DefaultNamespace,
                        local: LocalName::Named(nm),
                    }),
                ) && sel.first.simples@.len() == 0 && sel.rest@.len() == 0 && final(input).pos == j
                    + 1)))
            }),
    {
        let first = match self.parse_compound_selector(input) {
            Ok(c) => c,
            Err(e) => {
                return Err(e);
            },
        };
        let ghost first_compound = first;
        let mut rest: Vec<(Combinator, CompoundSelector)> = Vec::new();
        loop
            invariant
                input.wf(),
                input.tokens@ == old(input).tokens@,
                old(input).pos < input.pos,
                first == first_compound,
                compound_namespaces_resolved(*self.namespaces, first),
                ({
                    let j = old(input).spec_next_pos();
                    let toks = old(input).tokens@;
                    j < toks.len() ==> (toks[j] is Ident ==> (spec_lone_ident_selector(toks, j)
                        ==> rest@.len() == 0 && input.pos == j + 1))
                }),
                ({
                    let j = old(input).spec_next_pos();
                    let toks = old(input).tokens@;
                    j < toks.len() ==> (toks[j] matches CssToken::Ident(nm) ==> (!(j + 1
                        < toks.len() && toks[j + 1] == CssToken::Delim('|'))
                        ==> first_compound.type_selector == Some(
                        (TypeSelector {
                            namespace: NamespaceConstraint::DefaultNamespace,
                            local: LocalName::Named(nm),
                        }),
                    )))
                }),
                forall|i: int|
                    0 <= i < rest@.len() ==> #[trigger] compound_namespaces_resolved(
                        *self.namespaces,
                        rest@[i].1,
                    ),
            decreases input.tokens@.len() - input.pos,
        {
            let save = input.position();
            let mut saw_space = false;
            loop
                invariant
                    input.wf(),
                    input.tokens@ == old(input).tokens@,
                    save <= input.pos,
                    crate::tokens::next_non_ws(input.tokens@, input.pos as int)
                        == crate::tokens::next_non_ws(input.tokens@, save as int),
                decreases input.tokens@.len() - input.pos,
            {
                match input.peek_including_whitespace() {
                    Some(CssToken::WhiteSpace) => {
                        let _ = input.next_including_whitespace();
                        saw_space = true;
                    },
                    _ => {
                        break ;
                    },
                }
            }
            let combinator: Option<Combinator> = match input.peek_including_whitespace() {
                Some(CssToken::Delim('>')) => {
                    let _ = input.next_including_whitespace();
                    Some(Combinator::Child)
                },
                Some(CssToken::Delim('+')) => {
                    let _ = input.next_including_whitespace();
                    Some(Combinator::NextSibling)
                },
                Some(CssToken::Delim('~')) => {
                    let _ = input.next_including_whitespace();
                    Some(Combinator::LaterSibling)
                },
                Some(CssToken::Ident(_)) => {
                    if saw_space {
                        Some(Combinator::Descendant)
                    } else {
                        input.reset(save);
                        None
                    }
                },
                Some(CssToken::Delim('*')) | Some(CssToken::Delim('|')) | Some(
                    CssToken::Delim('.'),
                ) | Some(CssToken::IdHash(_)) | Some(CssToken::Hash(_)) | Some(CssToken::Colon) => {
                    if saw_space {
                        Some(Combinator::Descendant)
                    } else {
                        input.reset(save);
                        None
                    }
                },
                _ => {
                    input.reset(save);
                    None
                },
            };
            match combinator {
                None => {
                    break ;
                },
                Some(c) => {
                    let compound = match self.parse_compound_selector(input) {
                        Ok(comp) => comp,
                        Err(e) => {
                            return Err(e);
                        },
                    };
                    rest.push((c, compound));
                },
            }
        }
        Ok(OurSelector { first, rest })
    }

    /// The comma-separated selector list, running to the end of the input or
    /// to an opening block; an empty list is an empty vector here.
    #[verifier::loop_isolation(false)]
    pub fn parse_selectors(&self, input: &mut TokenStream) -> (r: Result<
        Vec<OurSelector>,
        PreciseParseError,
    >)
        requires
            old(input).wf(),
        ensures
            r matches Err(e) ==> spec_selector_grammar_error(e.kind),
            final(input).wf(),
            final(input).tokens@ == old(input).tokens@,
            old(input).pos <= final(input).pos,
            r matches Ok(v) ==> forall|i: int|
                0 <= i < v@.len() ==> #[trigger] selector_namespaces_resolved(
                    *self.namespaces,
                    v@[i],
                ),
            ({
                let j = old(input).spec_next_pos();
                let toks = old(input).tokens@;
                &&& (j == toks.len() || (j < toks.len() && toks[j] is CurlyBracketBlock)) ==> (
                r matches Ok(v) && v@.len() == 0 && final(input).pos == j)
                &&& !(j == toks.len() || (j < toks.len() && toks[j] is CurlyBracketBlock)) ==> (
                r matches Ok(v) ==> v@.len() >= 1)
                &&& j < toks.len() ==> (toks[j] matches CssToken::Ident(nm) ==> (!(j + 1
                    < toks.len() && toks[j + 1] == CssToken::Delim('|')) ==> (r matches Ok(v)
                    ==> v@.len() >= 1 && v@[0].first.type_selector == Some(
                    (TypeSelector {
                        namespace: NamespaceConstraint::DefaultNamespace,
                        local: LocalName::Named(nm),
                    }),
                ))))
                &&& j < toks.len() ==> (toks[j] matches CssToken::Ident(nm) ==> ((
                spec_lone_ident_selector(toks, j) && ({
                    let k = crate::tokens::next_non_ws(toks, j + 1);
                    k == toks.len() || toks[k] is CurlyBracketBlock
                })) ==> (r matches Ok(v) && v@.len() == 1 && v@[0].first.type_selector == Some(
                    (TypeSelector {
                        namespace: NamespaceConstraint::DefaultNamespace,
                        local: LocalName::Named(nm),
                    }),
                ) && v@[0].first.simples@.len() == 0 && v@[0].rest@.len() == 0 && final(input).pos
                    == j + 1)))
            }),
    {
        input.skip_whitespace();
        let mut out: Vec<OurSelector> = Vec::new();
        match input.peek() {
            None => {
                return Ok(out);
            },
            Some(CssToken::CurlyBracketBlock) => {
                return Ok(out);
            },
            _ => {},
        }
        loop
            invariant
                input.wf(),
                input.tokens@ == old(input).tokens@,
                old(input).pos <= input.pos,
                forall|i: int|
                    0 <= i < out@.len() ==> #[trigger] selector_namespaces_resolved(
                        *self.namespaces,
                        out@[i],
                    ),
                ({
                    let j = old(input).spec_next_pos();
                    let toks = old(input).tokens@;
                    !(j == toks.len() || (j < toks.len() && toks[j] is CurlyBracketBlock))
                }),
                out@.len() == 0 ==> input.pos as int == old(input).spec_next_pos(),
                ({
                    let j = old(input).spec_next_pos();
                    let toks = old(input).tokens@;
                    j < toks.len() ==> (toks[j] matches CssToken::Ident(nm) ==> (!(j + 1
                        < toks.len() && toks[j + 1] == CssToken::Delim('|')) ==> (out@.len() >= 1
                        ==> out@[0].first.type_selector == Some(
                        (TypeSelector {
                            namespace: NamespaceConstraint::DefaultNamespace,
                            local: LocalName::Named(nm),
                        }),
                    ))))
                }),
                ({
                    let j = old(input).spec_next_pos();
                    let toks = old(input).tokens@;
                    j < toks.len() ==> (toks[j] is Ident ==> ((spec_lone_ident_selector(toks, j)
                        && ({
                        let k = crate::tokens::next_non_ws(toks, j + 1);
                        k == toks.len() || toks[k] is CurlyBracketBlock
                    })) ==> out@.len() == 0))
                }),
            decreases input.tokens@.len() - input.pos,
        {
            let s = match self.parse_complex_selector(input) {
                Ok(s) => s,
                Err(e) => {
                    return Err(e);
                },
            };
            out.push(s);
            match input.peek() {
                Some(CssToken::Comma) => {
                    let _ = match input.next() {
                        Ok(t) => t,
                        Err(e) => {
                            return Err(e);
                        },
                    };
                },
                _ => {
                    break ;
                },
            }
        }
        Ok(out)
    }

    /// Parses, validates against a context restriction, and deduplicates a
    /// selector list. An empty list is rejected; a selector the restriction
    /// refuses aborts with its serialization in the error.
    #[verifier::loop_isolation(false)]
    pub fn parse_internal(&self, input: &mut TokenStream, restriction: SelectorRestriction) -> (r:
        Result<DeduplicatedSelectors, PreciseParseError>)
        requires
            old(input).wf(),
        ensures
            final(input).wf(),
            final(input).tokens@ == old(input).tokens@,
            old(input).pos <= final(input).pos,
            r matches Ok(d) ==> d.0@.len() >= 1,
            r matches Ok(d) ==> forall|i: int, j: int|
                0 <= i < j < d.0@.len() ==> #[trigger] selector_css(d.0@[i])
                    != #[trigger] selector_css(d.0@[j]),
            r matches Ok(d) ==> forall|i: int|
                0 <= i < d.0@.len() ==> !#[trigger] spec_is_invalid_selector(restriction, d.0@[i]),
            r matches Ok(d) ==> forall|i: int|
                0 <= i < d.0@.len() ==> #[trigger] selector_namespaces_resolved(
                    *self.namespaces,
                    d.0@[i],
                ),
            r matches Ok(d) ==> (exists|parsed: Seq<OurSelector>|
                parsed.len() >= 1 && d.0@ == #[trigger] dedup_selectors(parsed) && (forall|i: int|
                    0 <= i < parsed.len() ==> !spec_is_invalid_selector(restriction, parsed[i])
                        && selector_namespaces_resolved(*self.namespaces, parsed[i]))),
            restriction == SelectorRestriction::AllowAll ==> !(r matches Err(e) && e.kind
                matches ParseErrorKind::Custom(CustomParseError::SelectorIsInvalidInContext(_))),
            ({
                let j = old(input).spec_next_pos();
                let toks = old(input).tokens@;
                &&& (j == toks.len() || (j < toks.len() && toks[j] is CurlyBracketBlock)) ==> (
                r matches Err(e) && e.kind == ParseErrorKind::Custom(
                    CustomParseError::ThereAreNoSelectors,
                ) && e.at == j)
                &&& (r matches Err(e) && e.kind == ParseErrorKind::Custom(
                    CustomParseError::ThereAreNoSelectors,
                )) ==> (j == toks.len() || (j < toks.len() && toks[j] is CurlyBracketBlock))
                &&& j < toks.len() ==> (toks[j] matches CssToken::Ident(nm) ==> (!(j + 1
                    < toks.len() && toks[j + 1] == CssToken::Delim('|')) ==> (r matches Ok(d)
                    ==> d.0@[0].first.type_selector == Some(
                    (TypeSelector {
                        namespace: NamespaceConstraint::DefaultNamespace,
                        local: LocalName::Named(nm),
                    }),
                ))))
                &&& j < toks.len() ==> (toks[j] matches CssToken::Ident(nm) ==> ((
                spec_lone_ident_selector(toks, j) && ({
                    let k = crate::tokens::next_non_ws(toks, j + 1);
                    k == toks.len() || toks[k] is CurlyBracketBlock
                })) ==> (r matches Ok(d) && d.0@.len() == 1 && d.0@[0].first.type_selector
                    == Some(
                    (TypeSelector {
                        namespace: NamespaceConstraint::DefaultNamespace,
                        local: LocalName::Named(nm),
                    }),
                ) && d.0@[0].first.simples@.len() == 0 && d.0@[0].rest@.len() == 0
                    && final(input).pos == j + 1)))
            }),
    {
        let selectors = match self.parse_selectors(input) {
            Ok(v) => v,
            Err(e) => {
                return Err(e);
            },
        };
        let ghost parsed = selectors@;
        let result = validate_and_deduplicate(input, selectors, restriction);
        proof {
            crate::selectors::lemma_first_invalid_selector(restriction, parsed, 0);
            let j = old(input).spec_next_pos();
            let toks = old(input).tokens@;
            if j < toks.len() && toks[j] is Ident && spec_lone_ident_selector(toks, j) && ({
                let k = crate::tokens::next_non_ws(toks, j + 1);
                k == toks.len() || toks[k] is CurlyBracketBlock
            }) {
                assert(parsed.len() == 1);
                assert(!crate::selectors::selector_has_pseudo_element(parsed[0]));
                assert(!spec_is_invalid_selector(restriction, parsed[0]));
                assert(first_invalid_selector(restriction, parsed, 0) == parsed.len());
                assert(parsed.drop_last() =~= Seq::<OurSelector>::empty());
                assert(dedup_selectors(parsed.drop_last()) =~= Seq::<OurSelector>::empty());
                assert(!crate::selectors::contains_key(parsed.drop_last(), selector_css(parsed.last())));
                assert(dedup_selectors(parsed) =~= seq![parsed[0]]);
            }
            if parsed.len() > 0 && first_invalid_selector(restriction, parsed, 0)
                == parsed.len() {
                crate::selectors::lemma_dedup_first(parsed);
                lemma_dedup_len(parsed);
                lemma_dedup_no_duplicate_keys(parsed);
                lemma_dedup_elements(parsed);
                assert forall|m: int| 0 <= m < dedup_selectors(parsed).len() implies !#[trigger]
                spec_is_invalid_selector(restriction, dedup_selectors(parsed)[m]) by {
                    let jj = choose|jj: int|
                        0 <= jj < parsed.len() && #[trigger] dedup_selectors(parsed)[m]
                            == parsed[jj];
                    assert(!spec_is_invalid_selector(restriction, parsed[jj]));
                }
                assert forall|m: int| 0 <= m < dedup_selectors(parsed).len() implies #[trigger]
                selector_namespaces_resolved(*self.namespaces, dedup_selectors(parsed)[m]) by {
                    let jj = choose|jj: int|
                        0 <= jj < parsed.len() && #[trigger] dedup_selectors(parsed)[m]
                            == parsed[jj];
                    assert(selector_namespaces_resolved(*self.namespaces, parsed[jj]));
                }
            }
        }
        result
    }

    /// Parses a selector list with no context restriction.
    pub fn parse(&self, input: &mut TokenStream) -> (r: Result<
        DeduplicatedSelectors,
        PreciseParseError,
    >)
        requires
            old(input).wf(),
        ensures
            final(input).wf(),
            final(input).tokens@ == old(input).tokens@,
            old(input).pos <= final(input).pos,
            r matches Ok(d) ==> d.0@.len() >= 1,
            r matches Ok(d) ==> forall|i: int, j: int|
                0 <= i < j < d.0@.len() ==> #[trigger] selector_css(d.0@[i])
                    != #[trigger] selector_css(d.0@[j]),
            r matches Ok(d) ==> forall|i: int|
                0 <= i < d.0@.len() ==> #[trigger] selector_namespaces_resolved(
                    *self.namespaces,
                    d.0@[i],
                ),
            r matches Ok(d) ==> (exists|parsed: Seq<OurSelector>|
                parsed.len() >= 1 && d.0@ == #[trigger] dedup_selectors(parsed) && (forall|i: int|
                    0 <= i < parsed.len() ==> selector_namespaces_resolved(
                        *self.namespaces,
                        parsed[i],
                    ))),
            !(r matches Err(e) && e.kind matches ParseErrorKind::Custom(
                CustomParseError::SelectorIsInvalidInContext(_),
            )),
            ({
                let j = old(input).spec_next_pos();
                let toks = old(input).tokens@;
                &&& (j == toks.len() || (j < toks.len() && toks[j] is CurlyBracketBlock)) ==> (
                r matches Err(e) && e.kind == ParseErrorKind::Custom(
                    CustomParseError::ThereAreNoSelectors,
                ) && e.at == j)
                &&& (r matches Err(e) && e.kind == ParseErrorKind::Custom(
                    CustomParseError::ThereAreNoSelectors,
                )) ==> (j == toks.len() || (j < toks.len() && toks[j] is CurlyBracketBlock))
                &&& j < toks.len() ==> (toks[j] matches CssToken::Ident(nm) ==> (!(j + 1
                    < toks.len() && toks[j + 1] == CssToken::Delim('|')) ==> (r matches Ok(d)
                    ==> d.0@[0].first.type_selector == Some(
                    (TypeSelector {
                        namespace: NamespaceConstraint::DefaultNamespace,
                        local: LocalName::Named(nm),
                    }),
                ))))
                &&& j < toks.len() ==> (toks[j] matches CssToken::Ident(nm) ==> ((
                spec_lone_ident_selector(toks, j) && ({
                    let k = crate::tokens::next_non_ws(toks, j + 1);
                    k == toks.len() || toks[k] is CurlyBracketBlock
                })) ==> (r matches Ok(d) && d.0@.len() == 1 && d.0@[0].first.type_selector
                    == Some(
                    (TypeSelector {
                        namespace: NamespaceConstraint::DefaultNamespace,
                        local: LocalName::Named(nm),
                    }),
                ) && d.0@[0].first.simples@.len() == 0 && d.0@[0].rest@.len() == 0
                    && final(input).pos == j + 1)))
            }),
    {
        self.parse_internal(input, SelectorRestriction::AllowAll)
    }
}

/// Whether none of the first `n` recognized pseudo-class names matches, in
/// the order the parser tries them.
pub open spec fn spec_known_names_miss(name: Seq<char>, n: int) -> bool {
    &&& n > 0 ==> !eq_ignore_ascii_case_seq(name, "active"@)
    &&& n > 1 ==> !eq_ignore_ascii_case_seq(name, "any-link"@)
    &&& n > 2 ==> !eq_ignore_ascii_case_seq(name, "checked"@)
    &&& n > 3 ==> !eq_ignore_ascii_case_seq(name, "disabled"@)
    &&& n > 4 ==> !eq_ignore_ascii_case_seq(name, "enabled"@)
    &&& n > 5 ==> !eq_ignore_ascii_case_seq(name, "focus"@)
    &&& n > 6 ==> !eq_ignore_ascii_case_seq(name, "fullscreen"@)
    &&& n > 7 ==> !eq_ignore_ascii_case_seq(name, "hover"@)
    &&& n > 8 ==> !eq_ignore_ascii_case_seq(name, "indeterminate"@)
    &&& n > 9 ==> !eq_ignore_ascii_case_seq(name, "link"@)
    &&& n > 10 ==> !eq_ignore_ascii_case_seq(name, "read-only"@)
    &&& n > 11 ==> !eq_ignore_ascii_case_seq(name, "read-write"@)
    &&& n > 12 ==> !eq_ignore_ascii_case_seq(name, "target"@)
    &&& n > 13 ==> !eq_ignore_ascii_case_seq(name, "visited"@)
    &&& n > 14 ==> !eq_ignore_ascii_case_seq(name, "scope"@)
}

/// Whether none of the first `n` recognized pseudo-element names matches,
/// in the order the parser tries them.
pub open spec fn spec_pseudo_element_names_miss(name: Seq<char>, n: int) -> bool {
    &&& n > 0 ==> !eq_ignore_ascii_case_seq(name, "after"@)
    &&& n > 1 ==> !eq_ignore_ascii_case_seq(name, "before"@)
    &&& n > 2 ==> !eq_ignore_ascii_case_seq(name, "first-letter"@)
    &&& n > 3 ==> !eq_ignore_ascii_case_seq(name, "first-line"@)
    &&& n > 4 ==> !eq_ignore_ascii_case_seq(name, "placeholder"@)
    &&& n > 5 ==> !eq_ignore_ascii_case_seq(name, "selection"@)
}

} // verus!
