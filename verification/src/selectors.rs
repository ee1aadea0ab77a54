//! The selector adapter: parsing of comma-separated selector lists from the
//! token stream, namespace-prefix resolution against the shared table,
//! vendor-prefixable pseudo-class and pseudo-element recognition, and
//! deduplication by canonical serialized text with first-seen order kept.

use vstd::prelude::*;
use crate::ascii::ascii_case_insensitive_eq;
use crate::ascii::eq_ignore_ascii_case_seq;
use crate::css_escape::css_escaped_ident;
use crate::css_escape::escape_ident;
use crate::errors::CustomParseError;
use crate::errors::ParseErrorKind;
use crate::errors::PreciseParseError;
use crate::errors::SelectorParseError;
use crate::namespaces::NamespacePrefix;
use crate::namespaces::Namespaces;
use crate::namespaces::NamespaceUrl;
use crate::tokens::CssToken;
use crate::tokens::TokenStream;

verus! {

/// A vendor prefix, named as it is written.
#[allow(non_camel_case_types)]
#[derive(Debug, Clone, Copy, PartialEq, Eq, Structural)]
pub enum VendorPrefix {
    moz,
    webkit,
    ms,
    o,
}

/// A pseudo-class name that a configured table may direct to a vendor
/// prefix.
#[allow(non_camel_case_types)]
#[derive(Debug, Clone, Copy, PartialEq, Eq, Structural)]
pub enum VendorPrefixablePseudoClassName {
    any_link,
    fullscreen,
}

/// A pseudo-element name that a configured table may direct to a vendor
/// prefix.
#[allow(non_camel_case_types)]
#[derive(Debug, Clone, Copy, PartialEq, Eq, Structural)]
pub enum VendorPrefixablePseudoElementName {
    placeholder,
    selection,
}

/// A pseudo-class that matching evaluates outside the tree structure.
#[derive(Debug, PartialEq)]
pub enum NonTreeStructuralPseudoClass {
    Active,
    AnyLink(Option<VendorPrefix>),
    Checked,
    Disabled,
    Enabled,
    Focus,
    Fullscreen(Option<VendorPrefix>),
    Hover,
    Indeterminate,
    Lang(Vec<String>),
    Link,
    ReadOnly,
    ReadWrite,
    Target,
    Visited,
}

/// A pseudo-element.
#[derive(Debug, PartialEq)]
pub enum PseudoElement {
    After,
    Before,
    FirstLetter,
    FirstLine,
    Placeholder(Option<VendorPrefix>),
    Selection(Option<VendorPrefix>),
}

/// The namespace part of a type selector, resolved at parse time.
#[derive(Debug, PartialEq)]
pub enum NamespaceConstraint {
    /// No prefix written: the default namespace, if any, applies.
    DefaultNamespace,
    /// `|element`: explicitly no namespace.
    NoNamespace,
    /// `*|element`: any namespace.
    AnyNamespace,
    /// `prefix|element`, with the URI the prefix resolved to.
    Specific(NamespacePrefix, NamespaceUrl),
}

#[derive(Debug, PartialEq)]
pub enum LocalName {
    Universal,
    Named(String),
}

#[derive(Debug, PartialEq)]
pub struct TypeSelector {
    pub namespace: NamespaceConstraint,
    pub local: LocalName,
}

#[derive(Debug, PartialEq)]
pub enum SimpleSelector {
    Id(String),
    Class(String),
    PseudoClass(NonTreeStructuralPseudoClass),
    PseudoElement(PseudoElement),
}

#[derive(Debug, PartialEq)]
pub struct CompoundSelector {
    pub type_selector: Option<TypeSelector>,
    pub simples: Vec<SimpleSelector>,
}

#[derive(Debug, Clone, Copy, PartialEq, Eq, Structural)]
pub enum Combinator {
    Descendant,
    Child,
    NextSibling,
    LaterSibling,
}

/// One complex selector: a compound followed by combinator-joined
/// compounds.
#[derive(Debug, PartialEq)]
pub struct OurSelector {
    pub first: CompoundSelector,
    pub rest: Vec<(Combinator, CompoundSelector)>,
}

/// An ordered selector list with duplicates (by canonical serialization)
/// dropped, first occurrence keeping its position.
#[derive(Debug, PartialEq)]
pub struct DeduplicatedSelectors(pub Vec<OurSelector>);

// --- canonical serialization -------------------------------------------

pub open spec fn vendor_prefix_css(p: Option<VendorPrefix>) -> Seq<char> {
    match p {
        None => Seq::empty(),
        Some(VendorPrefix::moz) => "-moz-"@,
        Some(VendorPrefix::webkit) => "-webkit-"@,
        Some(VendorPrefix::ms) => "-ms-"@,
        Some(VendorPrefix::o) => "-o-"@,
    }
}

/// The language ranges of `:lang()`, escaped and comma separated.
pub open spec fn lang_args_css(args: Seq<String>) -> Seq<char>
    decreases args.len(),
{
    if args.len() == 0 {
        Seq::empty()
    } else if args.len() == 1 {
        css_escaped_ident(args[0]@)
    } else {
        lang_args_css(args.drop_last()) + seq![','] + css_escaped_ident(args.last()@)
    }
}

pub open spec fn pseudo_class_css(pc: NonTreeStructuralPseudoClass) -> Seq<char> {
    match pc {
        NonTreeStructuralPseudoClass::Active => ":active"@,
        NonTreeStructuralPseudoClass::AnyLink(p) => seq![':'] + vendor_prefix_css(p)
            + "any-link"@,
        NonTreeStructuralPseudoClass::Checked => ":checked"@,
        NonTreeStructuralPseudoClass::Disabled => ":disabled"@,
        NonTreeStructuralPseudoClass::Enabled => ":enabled"@,
        NonTreeStructuralPseudoClass::Focus => ":focus"@,
        NonTreeStructuralPseudoClass::Fullscreen(p) => seq![':'] + vendor_prefix_css(p)
            + "fullscreen"@,
        NonTreeStructuralPseudoClass::Hover => ":hover"@,
        NonTreeStructuralPseudoClass::Indeterminate => ":indeterminate"@,
        NonTreeStructuralPseudoClass::Lang(args) => ":lang("@ + lang_args_css(args@) + ")"@,
        NonTreeStructuralPseudoClass::Link => ":link"@,
        NonTreeStructuralPseudoClass::ReadOnly => ":read-only"@,
        NonTreeStructuralPseudoClass::ReadWrite => ":read-write"@,
        NonTreeStructuralPseudoClass::Target => ":target"@,
        NonTreeStructuralPseudoClass::Visited => ":visited"@,
    }
}

pub open spec fn pseudo_element_css(pe: PseudoElement) -> Seq<char> {
    match pe {
        PseudoElement::After => "::after"@,
        PseudoElement::Before => "::before"@,
        PseudoElement::FirstLetter => "::first-letter"@,
        PseudoElement::FirstLine => "::first-line"@,
        PseudoElement::Placeholder(p) => "::"@ + vendor_prefix_css(p) + "placeholder"@,
        PseudoElement::Selection(p) => "::"@ + vendor_prefix_css(p) + "selection"@,
    }
}

pub open spec fn local_name_css(l: LocalName) -> Seq<char> {
    match l {
        LocalName::Universal => "*"@,
        LocalName::Named(n) => css_escaped_ident(n@),
    }
}

pub open spec fn type_selector_css(t: TypeSelector) -> Seq<char> {
    match t.namespace {
        NamespaceConstraint::DefaultNamespace => local_name_css(t.local),
        NamespaceConstraint::NoNamespace => seq!['|'] + local_name_css(t.local),
        NamespaceConstraint::AnyNamespace => "*|"@ + local_name_css(t.local),
        NamespaceConstraint::Specific(p, _) => css_escaped_ident(p.0@) + seq!['|']
            + local_name_css(t.local),
    }
}

pub open spec fn simple_selector_css(s: SimpleSelector) -> Seq<char> {
    match s {
        SimpleSelector::Id(name) => seq!['#'] + css_escaped_ident(name@),
        SimpleSelector::Class(name) => seq!['.'] + css_escaped_ident(name@),
        SimpleSelector::PseudoClass(pc) => pseudo_class_css(pc),
        SimpleSelector::PseudoElement(pe) => pseudo_element_css(pe),
    }
}

pub open spec fn simples_css(ss: Seq<SimpleSelector>) -> Seq<char>
    decreases ss.len(),
{
    if ss.len() == 0 {
        Seq::empty()
    } else {
        simples_css(ss.drop_last()) + simple_selector_css(ss.last())
    }
}

pub open spec fn compound_css(c: CompoundSelector) -> Seq<char> {
    (match c.type_selector {
        Some(t) => type_selector_css(t),
        None => Seq::empty(),
    }) + simples_css(c.simples@)
}

pub open spec fn combinator_css(c: Combinator) -> Seq<char> {
    match c {
        Combinator::Descendant => " "@,
        Combinator::Child => " > "@,
        Combinator::NextSibling => " + "@,
        Combinator::LaterSibling => " ~ "@,
    }
}

pub open spec fn selector_rest_css(rest: Seq<(Combinator, CompoundSelector)>) -> Seq<char>
    decreases rest.len(),
{
    if rest.len() == 0 {
        Seq::empty()
    } else {
        selector_rest_css(rest.drop_last()) + combinator_css(rest.last().0) + compound_css(
            rest.last().1,
        )
    }
}

/// The canonical serialized text of a selector: the deduplication key.
pub open spec fn selector_css(s: OurSelector) -> Seq<char> {
    compound_css(s.first) + selector_rest_css(s.rest@)
}

// --- deduplication -----------------------------------------------------

/// Whether some selector in the sequence serializes to the given key.
pub open spec fn contains_key(ss: Seq<OurSelector>, k: Seq<char>) -> bool {
    exists|i: int| 0 <= i < ss.len() && #[trigger] selector_css(ss[i]) == k
}

/// The sequence with later duplicates (by serialization) dropped: the first
/// occurrence of a key keeps its position.
pub open spec fn dedup_selectors(ss: Seq<OurSelector>) -> Seq<OurSelector>
    decreases ss.len(),
{
    if ss.len() == 0 {
        Seq::empty()
    } else {
        let prev = dedup_selectors(ss.drop_last());
        if contains_key(ss.drop_last(), selector_css(ss.last())) {
            prev
        } else {
            prev.push(ss.last())
        }
    }
}

/// Deduplication keeps exactly the keys of its input.
pub proof fn lemma_dedup_keys(ss: Seq<OurSelector>, k: Seq<char>)
    ensures
        contains_key(dedup_selectors(ss), k) == contains_key(ss, k),
    decreases ss.len(),
{
    if ss.len() > 0 {
        lemma_dedup_keys(ss.drop_last(), k);
        let prev = dedup_selectors(ss.drop_last());
        if contains_key(ss.drop_last(), selector_css(ss.last())) {
            if contains_key(ss, k) {
                let i = choose|i: int|
                    0 <= i < ss.len() && #[trigger] selector_css(ss[i]) == k;
                if i < ss.len() - 1 {
                    assert(ss.drop_last()[i] == ss[i]);
                } else {
                    assert(selector_css(ss.last()) == k);
                }
            }
            if contains_key(ss.drop_last(), k) {
                let i = choose|i: int|
                    0 <= i < ss.drop_last().len() && #[trigger] selector_css(
                        ss.drop_last()[i],
                    ) == k;
                assert(ss[i] == ss.drop_last()[i]);
            }
        } else {
            assert forall|kk: Seq<char>| true implies contains_key(
                prev.push(ss.last()),
                kk,
            ) == (contains_key(prev, kk) || selector_css(ss.last()) == kk) by {
                let pl = prev.push(ss.last());
                if contains_key(pl, kk) {
                    let i = choose|i: int|
                        0 <= i < pl.len() && #[trigger] selector_css(pl[i]) == kk;
                    if i < prev.len() {
                        assert(pl[i] == prev[i]);
                    } else {
                        assert(pl[i] == ss.last());
                    }
                }
                if contains_key(prev, kk) {
                    let i = choose|i: int|
                        0 <= i < prev.len() && #[trigger] selector_css(prev[i]) == kk;
                    assert(pl[i] == prev[i]);
                    assert(selector_css(pl[i]) == kk);
                }
                if selector_css(ss.last()) == kk {
                    assert(pl[pl.len() - 1] == ss.last());
                    assert(selector_css(pl[pl.len() - 1]) == kk);
                }
            }
            if contains_key(ss, k) {
                let i = choose|i: int|
                    0 <= i < ss.len() && #[trigger] selector_css(ss[i]) == k;
                if i < ss.len() - 1 {
                    assert(ss.drop_last()[i] == ss[i]);
                } else {
                    assert(selector_css(ss.last()) == k);
                }
            }
            if contains_key(ss.drop_last(), k) {
                let i = choose|i: int|
                    0 <= i < ss.drop_last().len() && #[trigger] selector_css(
                        ss.drop_last()[i],
                    ) == k;
                assert(ss[i] == ss.drop_last()[i]);
            }
        }
    }
}

/// Deduplication leaves no two selectors with the same serialization.
pub proof fn lemma_dedup_no_duplicate_keys(ss: Seq<OurSelector>)
    ensures
        forall|i: int, j: int|
            0 <= i < j < dedup_selectors(ss).len() ==> #[trigger] selector_css(
                dedup_selectors(ss)[i],
            ) != #[trigger] selector_css(dedup_selectors(ss)[j]),
    decreases ss.len(),
{
    if ss.len() > 0 {
        lemma_dedup_no_duplicate_keys(ss.drop_last());
        lemma_dedup_keys(ss.drop_last(), selector_css(ss.last()));
        let prev = dedup_selectors(ss.drop_last());
        let d = dedup_selectors(ss);
        if !contains_key(ss.drop_last(), selector_css(ss.last())) {
            assert forall|i: int, j: int| 0 <= i < j < d.len() implies #[trigger] selector_css(
                d[i],
            ) != #[trigger] selector_css(d[j]) by {
                if j < prev.len() {
                    assert(d[i] == prev[i] && d[j] == prev[j]);
                } else {
                    assert(d[j] == ss.last());
                    assert(d[i] == prev[i]);
                    if selector_css(prev[i]) == selector_css(ss.last()) {
                        assert(contains_key(prev, selector_css(ss.last())));
                    }
                }
            }
        }
    }
}

/// A non-empty input deduplicates to a non-empty result, never longer than
/// the input.
pub proof fn lemma_dedup_len(ss: Seq<OurSelector>)
    ensures
        dedup_selectors(ss).len() <= ss.len(),
        ss.len() > 0 ==> dedup_selectors(ss).len() > 0,
    decreases ss.len(),
{
    if ss.len() > 0 {
        lemma_dedup_len(ss.drop_last());
    }
}

fn keys_contain(keys: &Vec<String>, k: &String) -> (r: bool)
    ensures
        r == exists|j: int| 0 <= j < keys@.len() && #[trigger] keys@[j]@ == k@,
{
    let mut j: usize = 0;
    while j < keys.len()
        invariant
            0 <= j <= keys@.len(),
            forall|m: int| 0 <= m < j ==> #[trigger] keys@[m]@ != k@,
        decreases keys@.len() - j,
    {
        if keys[j].eq(k) {
            return true;
        }
        j = j + 1;
    }
    false
}

/// Drops later duplicates by canonical serialization, keeping the first
/// occurrence of each key in its position.
pub fn deduplicate(selectors: Vec<OurSelector>) -> (r: DeduplicatedSelectors)
    ensures
        r.0@ == dedup_selectors(selectors@),
{
    let ghost orig = selectors@;
    let mut remaining = selectors;
    let mut keys: Vec<String> = Vec::new();
    let mut out: Vec<OurSelector> = Vec::new();
    let ghost mut done: int = 0;
    while remaining.len() > 0
        invariant
            0 <= done <= orig.len(),
            remaining@ =~= orig.subrange(done, orig.len() as int),
            out@ == dedup_selectors(orig.subrange(0, done)),
            keys@.len() == out@.len(),
            forall|m: int| 0 <= m < keys@.len() ==> #[trigger] keys@[m]@ == selector_css(
                out@[m],
            ),
        decreases remaining@.len(),
    {
        let sel = remaining.remove(0);
        proof {
            assert(sel == orig[done]);
        }
        let key = sel.to_css_string();
        let dup = keys_contain(&keys, &key);
        proof {
            let prefix = orig.subrange(0, done);
            lemma_dedup_keys(prefix, key@);
            let ext = orig.subrange(0, done + 1);
            assert(ext.drop_last() =~= prefix);
            assert(ext.last() == orig[done]);
            if dup {
                let j = choose|j: int| 0 <= j < keys@.len() && #[trigger] keys@[j]@ == key@;
                assert(selector_css(out@[j]) == key@);
                assert(contains_key(out@, key@));
                assert(contains_key(prefix, key@));
            } else {
                if contains_key(prefix, key@) {
                    assert(contains_key(out@, key@));
                    let j = choose|j: int|
                        0 <= j < out@.len() && #[trigger] selector_css(out@[j]) == key@;
                    assert(keys@[j]@ == key@);
                }
            }
        }
        if !dup {
            out.push(sel);
            keys.push(key);
        }
        proof {
            done = done + 1;
            assert(remaining@ =~= orig.subrange(done, orig.len() as int));
        }
    }
    proof {
        assert(orig.subrange(0, orig.len() as int) =~= orig);
    }
    DeduplicatedSelectors(out)
}

/// A non-empty input's first selector is never a duplicate, so
/// deduplication keeps it first.
pub proof fn lemma_dedup_first(ss: Seq<OurSelector>)
    requires
        ss.len() > 0,
    ensures
        dedup_selectors(ss).len() > 0,
        dedup_selectors(ss)[0] == ss[0],
    decreases ss.len(),
{
    lemma_dedup_len(ss);
    if ss.len() == 1 {
        assert(dedup_selectors(ss.drop_last()).len() == 0);
    } else {
        lemma_dedup_first(ss.drop_last());
        lemma_dedup_len(ss.drop_last());
        assert(ss.drop_last()[0] == ss[0]);
        let prev = dedup_selectors(ss.drop_last());
        if !contains_key(ss.drop_last(), selector_css(ss.last())) {
            assert(prev.push(ss.last())[0] == prev[0]);
        }
    }
}

/// Every selector that deduplication keeps was in the input.
pub proof fn lemma_dedup_elements(ss: Seq<OurSelector>)
    ensures
        forall|i: int|
            0 <= i < dedup_selectors(ss).len() ==> exists|j: int|
                0 <= j < ss.len() && #[trigger] dedup_selectors(ss)[i] == ss[j],
    decreases ss.len(),
{
    if ss.len() > 0 {
        lemma_dedup_elements(ss.drop_last());
        let prev = dedup_selectors(ss.drop_last());
        let d = dedup_selectors(ss);
        assert forall|i: int| 0 <= i < d.len() implies exists|j: int|
            0 <= j < ss.len() && #[trigger] d[i] == ss[j] by {
            if i < prev.len() {
                assert(d[i] == prev[i]);
                let j = choose|j: int|
                    0 <= j < ss.drop_last().len() && #[trigger] prev[i] == ss.drop_last()[j];
                assert(ss.drop_last()[j] == ss[j]);
                assert(d[i] == ss[j]);
            } else {
                assert(d[i] == ss.last());
                assert(d[i] == ss[ss.len() - 1]);
            }
        }
    }
}

// --- namespace resolution ----------------------------------------------

/// Whether the resolved namespace constraint of a compound agrees with the
/// table it was parsed against.
pub open spec fn compound_namespaces_resolved(ns: Namespaces, c: CompoundSelector) -> bool {
    c.type_selector matches Some(t) ==> (t.namespace matches NamespaceConstraint::Specific(p, u)
        ==> ns.spec_lookup(p.0@) == Some(u.0@))
}

/// Every prefixed type selector in the selector resolves to what the table
/// says.
pub open spec fn selector_namespaces_resolved(ns: Namespaces, s: OurSelector) -> bool {
    &&& compound_namespaces_resolved(ns, s.first)
    &&& forall|i: int|
        0 <= i < s.rest@.len() ==> #[trigger] compound_namespaces_resolved(ns, s.rest@[i].1)
}

// --- context restrictions ----------------------------------------------

pub open spec fn compound_has_pseudo_element(c: CompoundSelector) -> bool {
    exists|i: int| 0 <= i < c.simples@.len() && #[trigger] c.simples@[i] is PseudoElement
}

pub open spec fn selector_has_pseudo_element(s: OurSelector) -> bool {
    compound_has_pseudo_element(s.first) || exists|i: int|
        0 <= i < s.rest@.len() && #[trigger] compound_has_pseudo_element(s.rest@[i].1)
}

/// A nesting-context restriction on which selectors are acceptable, as the
/// caller of the selector parser supplies it.
#[derive(Debug, Clone, Copy, PartialEq, Eq, Structural)]
pub enum SelectorRestriction {
    AllowAll,
    /// Pseudo-elements are disallowed, as inside `@page`.
    DisallowPseudoElements,
}

pub open spec fn spec_is_invalid_selector(r: SelectorRestriction, s: OurSelector) -> bool {
    match r {
        SelectorRestriction::AllowAll => false,
        SelectorRestriction::DisallowPseudoElements => selector_has_pseudo_element(s),
    }
}

fn compound_has_pseudo_element_exec(c: &CompoundSelector) -> (r: bool)
    ensures
        r == compound_has_pseudo_element(*c),
{
    let mut i: usize = 0;
    while i < c.simples.len()
        invariant
            0 <= i <= c.simples@.len(),
            forall|m: int| 0 <= m < i ==> !(#[trigger] c.simples@[m] is PseudoElement),
        decreases c.simples@.len() - i,
    {
        if matches!(&c.simples[i], SimpleSelector::PseudoElement(_)) {
            return true;
        }
        i = i + 1;
    }
    false
}

/// Whether the selector is rejected by the given context restriction.
pub fn is_invalid_selector(r: SelectorRestriction, s: &OurSelector) -> (res: bool)
    ensures
        res == spec_is_invalid_selector(r, *s),
{
    match r {
        SelectorRestriction::AllowAll => false,
        SelectorRestriction::DisallowPseudoElements => {
            if compound_has_pseudo_element_exec(&s.first) {
                return true;
            }
            let mut i: usize = 0;
            while i < s.rest.len()
                invariant
                    r == SelectorRestriction::DisallowPseudoElements,
                    0 <= i <= s.rest@.len(),
                    !compound_has_pseudo_element(s.first),
                    forall|m: int|
                        0 <= m < i ==> !(#[trigger] compound_has_pseudo_element(s.rest@[m].1)),
                decreases s.rest@.len() - i,
            {
                if compound_has_pseudo_element_exec(&s.rest[i].1) {
                    proof {
                        assert(compound_has_pseudo_element(s.rest@[i as int].1));
                    }
                    return true;
                }
                i = i + 1;
            }
            false
        },
    }
}

/// The first index at or after `i` whose selector the restriction
/// rejects, or the length.
pub open spec fn first_invalid_selector(
    restriction: SelectorRestriction,
    ss: Seq<OurSelector>,
    i: int,
) -> int
    decreases ss.len() - i,
{
    if i < 0 || i >= ss.len() {
        i
    } else if spec_is_invalid_selector(restriction, ss[i]) {
        i
    } else {
        first_invalid_selector(restriction, ss, i + 1)
    }
}

pub proof fn lemma_first_invalid_selector(
    restriction: SelectorRestriction,
    ss: Seq<OurSelector>,
    i: int,
)
    requires
        0 <= i <= ss.len(),
    ensures
        i <= first_invalid_selector(restriction, ss, i) <= ss.len(),
        first_invalid_selector(restriction, ss, i) < ss.len() ==> spec_is_invalid_selector(
            restriction,
            ss[first_invalid_selector(restriction, ss, i)],
        ),
        forall|j: int|
            i <= j < first_invalid_selector(restriction, ss, i) ==> !spec_is_invalid_selector(
                restriction,
                ss[j],
            ),
    decreases ss.len() - i,
{
    if i < ss.len() && !spec_is_invalid_selector(restriction, ss[i]) {
        lemma_first_invalid_selector(restriction, ss, i + 1);
    }
}

/// The list-level judgment over an already parsed selector list: an empty
/// list is exactly the no-selectors error; otherwise the first selector the
/// context restriction rejects, if any, is exactly the invalid-in-context
/// error carrying its serialization; a valid non-empty list deduplicates
/// with the first occurrence of each serialization keeping its position.
#[verifier::loop_isolation(false)]
pub fn validate_and_deduplicate(
    input: &TokenStream,
    selectors: Vec<OurSelector>,
    restriction: SelectorRestriction,
) -> (r: Result<DeduplicatedSelectors, PreciseParseError>)
    ensures
        selectors@.len() == 0 ==> (r matches Err(e) && e.kind == ParseErrorKind::Custom(
            CustomParseError::ThereAreNoSelectors,
        ) && e.at == input.pos),
        ({
            let fi = first_invalid_selector(restriction, selectors@, 0);
            &&& selectors@.len() > 0 && fi < selectors@.len() ==> (r matches Err(e) && e.kind
                matches ParseErrorKind::Custom(ce) && ce
                matches CustomParseError::SelectorIsInvalidInContext(css) && css@ == selector_css(
                selectors@[fi],
            ) && e.at == input.pos)
            &&& selectors@.len() > 0 && fi == selectors@.len() ==> (r matches Ok(d) && d.0@
                == dedup_selectors(selectors@))
        }),
{
    if selectors.len() == 0 {
        return Err(input.new_custom_error(CustomParseError::ThereAreNoSelectors));
    }
    proof {
        lemma_first_invalid_selector(restriction, selectors@, 0);
    }
    let mut i: usize = 0;
    while i < selectors.len()
        invariant
            0 <= i <= selectors@.len(),
            forall|m: int|
                0 <= m < i ==> !#[trigger] spec_is_invalid_selector(restriction, selectors@[m]),
            first_invalid_selector(restriction, selectors@, i as int) == first_invalid_selector(
                restriction,
                selectors@,
                0,
            ),
        decreases selectors@.len() - i,
    {
        if is_invalid_selector(restriction, &selectors[i]) {
            let css = selectors[i].to_css_string();
            return Err(
                input.new_custom_error(CustomParseError::SelectorIsInvalidInContext(css)),
            );
        }
        i = i + 1;
    }
    Ok(deduplicate(selectors))
}

fn push_vendor_prefix(out: &mut String, p: &Option<VendorPrefix>)
    ensures
        final(out)@ == old(out)@ + vendor_prefix_css(*p),
{
    proof {
        reveal_strlit("-moz-");
        reveal_strlit("-webkit-");
        reveal_strlit("-ms-");
        reveal_strlit("-o-");
    }
    match p {
        None => {
            assert(out@ =~= old(out)@ + vendor_prefix_css(*p));
        },
        Some(VendorPrefix::moz) => out.append("-moz-"),
        Some(VendorPrefix::webkit) => out.append("-webkit-"),
        Some(VendorPrefix::ms) => out.append("-ms-"),
        Some(VendorPrefix::o) => out.append("-o-"),
    }
}

fn push_lang_args(out: &mut String, args: &Vec<String>)
    ensures
        final(out)@ == old(out)@ + lang_args_css(args@),
{
    proof {
        reveal_strlit(",");
    }
    let mut i: usize = 0;
    while i < args.len()
        invariant
            0 <= i <= args@.len(),
            out@ == old(out)@ + lang_args_css(args@.subrange(0, i as int)),
        decreases args@.len() - i,
    {
        if i > 0 {
            out.append(",");
        }
        let escaped = escape_ident(args[i].as_str());
        out.append(escaped.as_str());
        proof {
            reveal_strlit(",");
            let sub = args@.subrange(0, i + 1);
            assert(sub.drop_last() =~= args@.subrange(0, i as int));
            assert(sub.drop_last() == args@.subrange(0, i as int));
            assert(sub.last() == args@[i as int]);
            if i == 0 {
                assert(out@ =~= old(out)@ + lang_args_css(sub));
            } else {
                assert(sub.len() >= 2);
                assert(lang_args_css(sub) == lang_args_css(sub.drop_last()) + seq![',']
                    + css_escaped_ident(sub.last()@));
                assert(","@ =~= seq![',']);
                assert(out@ =~= old(out)@ + lang_args_css(sub));
            }
        }
        i = i + 1;
    }
    proof {
        assert(args@.subrange(0, args@.len() as int) =~= args@);
    }
}

fn push_pseudo_class(out: &mut String, pc: &NonTreeStructuralPseudoClass)
    ensures
        final(out)@ == old(out)@ + pseudo_class_css(*pc),
{
    proof {
        reveal_strlit(":active");
        reveal_strlit(":");
        reveal_strlit("any-link");
        reveal_strlit(":checked");
        reveal_strlit(":disabled");
        reveal_strlit(":enabled");
        reveal_strlit(":focus");
        reveal_strlit("fullscreen");
        reveal_strlit(":hover");
        reveal_strlit(":indeterminate");
        reveal_strlit(":lang(");
        reveal_strlit(")");
        reveal_strlit(":link");
        reveal_strlit(":read-only");
        reveal_strlit(":read-write");
        reveal_strlit(":target");
        reveal_strlit(":visited");
    }
    match pc {
        NonTreeStructuralPseudoClass::Active => out.append(":active"),
        NonTreeStructuralPseudoClass::AnyLink(p) => {
            out.append(":");
            push_vendor_prefix(out, p);
            out.append("any-link");
            assert(out@ =~= old(out)@ + pseudo_class_css(*pc));
        },
        NonTreeStructuralPseudoClass::Checked => out.append(":checked"),
        NonTreeStructuralPseudoClass::Disabled => out.append(":disabled"),
        NonTreeStructuralPseudoClass::Enabled => out.append(":enabled"),
        NonTreeStructuralPseudoClass::Focus => out.append(":focus"),
        NonTreeStructuralPseudoClass::Fullscreen(p) => {
            out.append(":");
            push_vendor_prefix(out, p);
            out.append("fullscreen");
            assert(out@ =~= old(out)@ + pseudo_class_css(*pc));
        },
        NonTreeStructuralPseudoClass::Hover => out.append(":hover"),
        NonTreeStructuralPseudoClass::Indeterminate => out.append(":indeterminate"),
        NonTreeStructuralPseudoClass::Lang(args) => {
            out.append(":lang(");
            push_lang_args(out, args);
            out.append(")");
            assert(out@ =~= old(out)@ + pseudo_class_css(*pc));
        },
        NonTreeStructuralPseudoClass::Link => out.append(":link"),
        NonTreeStructuralPseudoClass::ReadOnly => out.append(":read-only"),
        NonTreeStructuralPseudoClass::ReadWrite => out.append(":read-write"),
        NonTreeStructuralPseudoClass::Target => out.append(":target"),
        NonTreeStructuralPseudoClass::Visited => out.append(":visited"),
    }
}

fn push_pseudo_element(out: &mut String, pe: &PseudoElement)
    ensures
        final(out)@ == old(out)@ + pseudo_element_css(*pe),
{
    proof {
        reveal_strlit("::after");
        reveal_strlit("::before");
        reveal_strlit("::first-letter");
        reveal_strlit("::first-line");
        reveal_strlit("::");
        reveal_strlit("placeholder");
        reveal_strlit("selection");
    }
    match pe {
        PseudoElement::After => out.append("::after"),
        PseudoElement::Before => out.append("::before"),
        PseudoElement::FirstLetter => out.append("::first-letter"),
        PseudoElement::FirstLine => out.append("::first-line"),
        PseudoElement::Placeholder(p) => {
            out.append("::");
            push_vendor_prefix(out, p);
            out.append("placeholder");
            assert(out@ =~= old(out)@ + pseudo_element_css(*pe));
        },
        PseudoElement::Selection(p) => {
            out.append("::");
            push_vendor_prefix(out, p);
            out.append("selection");
            assert(out@ =~= old(out)@ + pseudo_element_css(*pe));
        },
    }
}

fn push_local_name(out: &mut String, l: &LocalName)
    ensures
        final(out)@ == old(out)@ + local_name_css(*l),
{
    proof {
        reveal_strlit("*");
    }
    match l {
        LocalName::Universal => out.append("*"),
        LocalName::Named(n) => {
            let escaped = escape_ident(n.as_str());
            out.append(escaped.as_str());
        },
    }
}

fn push_type_selector(out: &mut String, t: &TypeSelector)
    ensures
        final(out)@ == old(out)@ + type_selector_css(*t),
{
    proof {
        reveal_strlit("|");
        reveal_strlit("*|");
    }
    match &t.namespace {
        NamespaceConstraint::DefaultNamespace => push_local_name(out, &t.local),
        NamespaceConstraint::NoNamespace => {
            out.append("|");
            push_local_name(out, &t.local);
            assert(out@ =~= old(out)@ + type_selector_css(*t));
        },
        NamespaceConstraint::AnyNamespace => {
            out.append("*|");
            push_local_name(out, &t.local);
            assert(out@ =~= old(out)@ + type_selector_css(*t));
        },
        NamespaceConstraint::Specific(p, _) => {
            let escaped = escape_ident(p.0.as_str());
            out.append(escaped.as_str());
            out.append("|");
            push_local_name(out, &t.local);
            assert(out@ =~= old(out)@ + type_selector_css(*t));
        },
    }
}

fn push_simple_selector(out: &mut String, s: &SimpleSelector)
    ensures
        final(out)@ == old(out)@ + simple_selector_css(*s),
{
    proof {
        reveal_strlit("#");
        reveal_strlit(".");
    }
    match s {
        SimpleSelector::Id(name) => {
            out.append("#");
            let escaped = escape_ident(name.as_str());
            out.append(escaped.as_str());
            assert(out@ =~= old(out)@ + simple_selector_css(*s));
        },
        SimpleSelector::Class(name) => {
            out.append(".");
            let escaped = escape_ident(name.as_str());
            out.append(escaped.as_str());
            assert(out@ =~= old(out)@ + simple_selector_css(*s));
        },
        SimpleSelector::PseudoClass(pc) => push_pseudo_class(out, pc),
        SimpleSelector::PseudoElement(pe) => push_pseudo_element(out, pe),
    }
}

fn push_compound(out: &mut String, c: &CompoundSelector)
    ensures
        final(out)@ == old(out)@ + compound_css(*c),
{
    match &c.type_selector {
        Some(t) => push_type_selector(out, t),
        None => {},
    }
    let mut i: usize = 0;
    while i < c.simples.len()
        invariant
            0 <= i <= c.simples@.len(),
            out@ == old(out)@ + (match c.type_selector {
                Some(t) => type_selector_css(t),
                None => Seq::<char>::empty(),
            }) + simples_css(c.simples@.subrange(0, i as int)),
        decreases c.simples@.len() - i,
    {
        push_simple_selector(out, &c.simples[i]);
        proof {
            let sub = c.simples@.subrange(0, i + 1);
            assert(sub.drop_last() =~= c.simples@.subrange(0, i as int));
            assert(sub.last() == c.simples@[i as int]);
            assert(out@ =~= old(out)@ + (match c.type_selector {
                Some(t) => type_selector_css(t),
                None => Seq::<char>::empty(),
            }) + simples_css(sub));
        }
        i = i + 1;
    }
    proof {
        assert(c.simples@.subrange(0, c.simples@.len() as int) =~= c.simples@);
        assert(out@ =~= old(out)@ + compound_css(*c));
    }
}

fn push_combinator(out: &mut String, c: &Combinator)
    ensures
        final(out)@ == old(out)@ + combinator_css(*c),
{
    proof {
        reveal_strlit(" ");
        reveal_strlit(" > ");
        reveal_strlit(" + ");
        reveal_strlit(" ~ ");
    }
    match c {
        Combinator::Descendant => out.append(" "),
        Combinator::Child => out.append(" > "),
        Combinator::NextSibling => out.append(" + "),
        Combinator::LaterSibling => out.append(" ~ "),
    }
}

impl OurSelector {
    /// The canonical serialized text: equal selectors serialize equally, and
    /// deduplication keys on this text.
    pub fn to_css_string(&self) -> (r: String)
        ensures
            r@ == selector_css(*self),
    {
        let mut out = String::new();
        push_compound(&mut out, &self.first);
        let mut i: usize = 0;
        while i < self.rest.len()
            invariant
                0 <= i <= self.rest@.len(),
                out@ == compound_css(self.first) + selector_rest_css(
                    self.rest@.subrange(0, i as int),
                ),
            decreases self.rest@.len() - i,
        {
            push_combinator(&mut out, &self.rest[i].0);
            push_compound(&mut out, &self.rest[i].1);
            proof {
                let sub = self.rest@.subrange(0, i + 1);
                assert(sub.drop_last() =~= self.rest@.subrange(0, i as int));
                assert(sub.last() == self.rest@[i as int]);
                assert(out@ =~= compound_css(self.first) + selector_rest_css(sub));
            }
            i = i + 1;
        }
        proof {
            assert(self.rest@.subrange(0, self.rest@.len() as int) =~= self.rest@);
        }
        out
    }
}

} // verus!
