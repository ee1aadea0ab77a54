//! The parsed prelude of an at-rule, before its block or terminating
//! semicolon.

use vstd::prelude::*;
use crate::rules::CounterStyleIdent;
use crate::rules::DocumentCondition;
use crate::rules::FamilyName;
use crate::rules::ImportAtRule;
use crate::rules::KeyframesName;
use crate::rules::MediaList;
use crate::rules::NamespaceAtRule;
use crate::rules::PageSelectorPseudoClass;
use crate::rules::SupportsCondition;
use crate::selectors::VendorPrefix;

verus! {

/// A rule prelude for at-rule with block.
#[derive(Debug, PartialEq)]
pub enum AtRuleBlockPrelude {
    /// An @import rule prelude.
    Import(ImportAtRule),
    /// A @namespace rule prelude.
    Namespace(NamespaceAtRule),
    /// A @counter-style rule prelude, with its counter style name.
    CounterStyle(CounterStyleIdent),
    /// A @document rule, with its conditional.
    Document(Option<VendorPrefix>, DocumentCondition),
    /// A @font-face rule prelude.
    FontFace,
    /// A @font-feature-values rule prelude, with its FamilyName list.
    FontFeatureValues(Vec<FamilyName>),
    /// A @keyframes rule, with its animation name and vendor prefix if
    /// exists.
    Keyframes(Option<VendorPrefix>, KeyframesName),
    /// A @media rule prelude, with its media queries.
    Media(MediaList),
    /// A @page rule prelude.
    Page(Option<PageSelectorPseudoClass>),
    /// An @supports rule, with its conditional.
    Supports(SupportsCondition),
    /// A @viewport rule prelude.
    Viewport(Option<VendorPrefix>),
}

} // verus!
