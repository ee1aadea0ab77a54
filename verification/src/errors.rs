//! The closed taxonomy of parse failures.
//!
//! Every grammar in the crate fails with a [`CustomParseError`] (or one of
//! the structural kinds in [`ParseErrorKind`]), constructed at the point of
//! detection with the offending token, identifier or numeric value as its
//! payload. The selector sub-grammar has an error type of its own,
//! [`SelectorParseError`], wrapped by one variant here and able to wrap this
//! type in turn.

use vstd::prelude::*;
use crate::numbers::CssNumberConversionError;
use crate::tokens::CssToken;

verus! {

/// Errors of the selector sub-grammar.
#[derive(Debug, PartialEq)]
pub enum SelectorParseError {
    EmptySelector,
    DanglingCombinator,
    UnexpectedTokenInSelector(CssToken),
    EndOfInputInSelector,
    ExpectedNamespaceFor(String),
    NoIdentForPseudo,
    PseudoElementExpectedIdent,
    Custom(Box<CustomParseError>),
}

/// Represents all the things that can go wrong when parsing.
#[derive(Debug, PartialEq)]
pub enum CustomParseError {
    // @-rule
    UnsupportedAtRule(String),
    InvalidParseState,
    // @charset
    UnexpectedCharsetAtRule,
    // @counter-style
    UnsupportedCounterStyleProperty(String),
    InvalidCounterStyleWithoutSymbols(System),
    InvalidCounterStyleNotEnoughSymbols(System),
    InvalidCounterStyleWithoutAdditiveSymbols,
    InvalidCounterStyleExtendsWithSymbols,
    InvalidCounterStyleExtendsWithAdditiveSymbols,
    CounterStyleSystemIsNotKnown(String),
    CounterStyleSymbolsCanNotBeEmpty,
    DecimalOrDiscIsNotAllowedInACounterStyleIdentInACounterStyleAtRule,
    NoneIsNotAllowedInACounterStyleIdent,
    // @document
    DocumentAtRuleUrlMatchingFunctionWasInvalid,
    BadUrlInDeclarationValueBlock(String),
    BadStringInDeclarationValueBlock(String),
    UnbalancedCloseParenthesisInDeclarationValueBlock,
    UnbalancedCloseSquareBracketInDeclarationValueBlock,
    UnbalancedCloseCurlyBracketInDeclarationValueBlock,
    // @font-face
    UnsupportedFontFaceProperty(String),
    // @font-feature-values
    InvalidFontLanguageOverrideIdentifier(String),
    InvalidFontLanguageOverrideOpenTypeLanguageTag(String),
    FontFeatureSettingOpenTypeFeatureTagMustBeFourCharacters(String),
    FontFeatureSettingOpenTypeFeatureTagMustBePrintableAscii(String),
    FontFeatureSettingIfNotAnIntegerMustBeOnOrOff(String),
    FontFeatureSettingIntegerMustBePositive(i32),
    FontFaceAtRuleFontWeightWasNotAValidIdentifierOrInteger,
    FontFaceAtRuleFontFamilyCanNotBeGeneric,
    // @import
    AtRuleImportMustBeBeforeAnyRuleExceptAtRuleCharset,
    // @keyframes
    KeyframePercentageWasNotBetweenZeroAndOneInclusive(i64),
    ImportantIsNotAllowedInKeyframePropertyDeclarationValues,
    UnexpectedTokenWhenParsingZoom(CssToken),
    // @media
    InvalidMediaType(String),
    DeprecatedMediaType(String),
    UnrecognisedMediaType(String),
    DeprecatedMediaQueryExpression(String),
    UnsupportedMediaQueryExpression(String),
    RatioNumeratorCanNotBeNegativeOrZero(i32),
    RatioDivisorCanNotBeNegativeOrZero(i32),
    MediaGridMustBeEitherZeroOrOne(i32),
    MediaTransform3DMustBeEitherZeroOrOne(i32),
    MediaTypeIsOnlyOptionalIfQualifiedIsNotSpecified,
    // @namespace
    AtRuleNamespaceMustBeBeforeAnyRuleExceptAtRuleCharsetAndAtRuleImport,
    UnexpectedTokenForAtNamespaceRuleNamespaceValue(CssToken),
    // @page
    InvalidPageSelectorPseudoClass(String),
    FontRelativeLengthsAreNotAllowedInAPageAtRule,
    ViewportLengthsAreNotAllowedInAPageAtRule,
    // @supports
    InvalidSupportsCondition(String),
    // @viewport
    UnexpectedViewportProperty(String),
    // selectors
    SpecificSelectorParseError(SelectorParseError),
    ThereAreNoSelectors,
    SelectorIsInvalidInContext(String),
    UnsupportedPseudoClassOrElement(String),
    NonTreeStructuralPseudoClassScopeIsObsoleteAsOfFirefox55,
    // custom ident
    UnexpectedCustomIdent(String),
    CustomIdentWasExcluded(String),
    // numbers & units
    CouldNotParseCssSignedNumber(CssNumberConversionError, i64),
    CouldNotParseCssUnsignedNumber(CssNumberConversionError, i64),
    CouldNotParseDimensionLessNumber(i64),
    CouldNotParseDimension(i64, String),
    UnsignedIntegersCanNotBeNegative(i32),
    UnsignedIntegersCanNotBeFloats(i64),
    // expressions (calc(), var(), attr())
    UnknownFunctionInValueExpression(String),
    CssVariablesInVarExpressionsMustStartWithTwoDashes(String),
}

/// The `@counter-style` system keyword, carried by counter-style errors.
#[derive(Debug, Clone, Copy, PartialEq, Eq, Structural)]
pub enum System {
    Cyclic,
    Numeric,
    Alphabetic,
    Symbolic,
    Additive,
    Fixed,
    Extends,
}

impl From<SelectorParseError> for CustomParseError {
    fn from(error: SelectorParseError) -> (r: Self) {
        CustomParseError::SpecificSelectorParseError(error)
    }
}

impl vstd::std_specs::convert::FromSpecImpl<SelectorParseError> for CustomParseError {
    open spec fn obeys_from_spec() -> bool {
        true
    }

    open spec fn from_spec(error: SelectorParseError) -> Self {
        CustomParseError::SpecificSelectorParseError(error)
    }
}

impl CustomParseError {
    /// The inverse wrapping: this error carried inside the selector
    /// sub-grammar's own error type.
    pub fn into_selector_parse_error(self) -> (r: SelectorParseError)
        ensures
            r matches SelectorParseError::Custom(inner) && *inner == self,
    {
        SelectorParseError::Custom(Box::new(self))
    }
}

/// A structural parse failure: either one of the fixed shapes that the rule
/// framing itself detects, or a grammar's own [`CustomParseError`].
#[derive(Debug, PartialEq)]
pub enum ParseErrorKind {
    UnexpectedToken(CssToken),
    EndOfInput,
    AtRuleInvalid(String),
    AtRuleBodyInvalid,
    QualifiedRuleInvalid,
    Custom(CustomParseError),
}

/// An error kind the selector token grammar itself can produce: never one
/// of the two list-level judgments, which only the list validation step
/// emits.
pub open spec fn spec_selector_grammar_error(k: ParseErrorKind) -> bool {
    &&& k != ParseErrorKind::Custom(CustomParseError::ThereAreNoSelectors)
    &&& !(k matches ParseErrorKind::Custom(
        CustomParseError::SelectorIsInvalidInContext(_),
    ))
}

/// A parse failure together with the index of the token at which it was
/// detected.
#[derive(Debug, PartialEq)]
pub struct PreciseParseError {
    pub kind: ParseErrorKind,
    pub at: usize,
}

} // verus!
