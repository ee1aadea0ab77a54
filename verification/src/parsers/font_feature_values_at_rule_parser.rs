//! The `@font-feature-values` rule body: one block per feature type,
//! `@swash { ... }` style, each holding a declaration list.

use vstd::prelude::*;
use crate::ascii::ascii_case_insensitive_eq;
use crate::ascii::eq_ignore_ascii_case_seq;
use crate::context::ParserContext;
use crate::errors::ParseErrorKind;
use crate::errors::PreciseParseError;
use crate::rules::FamilyName;
use crate::rules::FontFeatureValuesAtRule;
use crate::tokens::CssToken;
use crate::tokens::TokenStream;
use crate::parsers::font_feature_values_declarations_parser::feature_values_have_unique_names;
use crate::parsers::font_feature_values_declarations_parser::FontFeatureValuesDeclarationsParser;

verus! {

/// A feature type of `@font-feature-values`, named as written.
#[allow(non_camel_case_types)]
#[derive(Debug, Clone, Copy, PartialEq, Eq, Structural)]
pub enum FontFeatureValuesBlockType {
    swash,
    stylistic,
    ornaments,
    annotation,
    character_variant,
    styleset,
}

/// Whether none of the first `n` feature type keywords matches, in the
/// order the parser tries them.
pub open spec fn spec_feature_type_miss(name: Seq<char>, n: int) -> bool {
    &&& n > 0 ==> !eq_ignore_ascii_case_seq(name, "swash"@)
    &&& n > 1 ==> !eq_ignore_ascii_case_seq(name, "stylistic"@)
    &&& n > 2 ==> !eq_ignore_ascii_case_seq(name, "ornaments"@)
    &&& n > 3 ==> !eq_ignore_ascii_case_seq(name, "annotation"@)
    &&& n > 4 ==> !eq_ignore_ascii_case_seq(name, "character-variant"@)
    &&& n > 5 ==> !eq_ignore_ascii_case_seq(name, "styleset"@)
}

/// Every declaration list of the rule has unique identifiers.
pub open spec fn feature_values_rule_has_unique_names(rule: FontFeatureValuesAtRule) -> bool {
    &&& feature_values_have_unique_names(rule.swash@)
    &&& feature_values_have_unique_names(rule.stylistic@)
    &&& feature_values_have_unique_names(rule.ornaments@)
    &&& feature_values_have_unique_names(rule.annotation@)
    &&& feature_values_have_unique_names(rule.character_variant@)
    &&& feature_values_have_unique_names(rule.styleset@)
}

/// Parses all blocks of one `@font-feature-values` rule.
pub struct FontFeatureValuesAtRuleParser<'a> {
    pub context: &'a ParserContext,
}

impl<'a> FontFeatureValuesAtRuleParser<'a> {
    /// Recognizes a feature type keyword; anything else makes the at-rule
    /// body invalid.
    pub fn parse_prelude(&self, name: String, input: &TokenStream) -> (r: Result<
        FontFeatureValuesBlockType,
        PreciseParseError,
    >)
        ensures
            eq_ignore_ascii_case_seq(name@, "swash"@) ==> r == Ok::<_, PreciseParseError>(
                FontFeatureValuesBlockType::swash,
            ),
            spec_feature_type_miss(name@, 1) && eq_ignore_ascii_case_seq(name@, "stylistic"@)
                ==> r == Ok::<_, PreciseParseError>(FontFeatureValuesBlockType::stylistic),
            spec_feature_type_miss(name@, 2) && eq_ignore_ascii_case_seq(name@, "ornaments"@)
                ==> r == Ok::<_, PreciseParseError>(FontFeatureValuesBlockType::ornaments),
            spec_feature_type_miss(name@, 3) && eq_ignore_ascii_case_seq(name@, "annotation"@)
                ==> r == Ok::<_, PreciseParseError>(FontFeatureValuesBlockType::annotation),
            spec_feature_type_miss(name@, 4) && eq_ignore_ascii_case_seq(
                name@,
                "character-variant"@,
            ) ==> r == Ok::<_, PreciseParseError>(FontFeatureValuesBlockType::character_variant),
            spec_feature_type_miss(name@, 5) && eq_ignore_ascii_case_seq(name@, "styleset"@)
                ==> r == Ok::<_, PreciseParseError>(FontFeatureValuesBlockType::styleset),
            spec_feature_type_miss(name@, 6) ==> (r matches Err(e) && e.kind
                == ParseErrorKind::AtRuleBodyInvalid),
    {
        if ascii_case_insensitive_eq(name.as_str(), "swash") {
            Ok(FontFeatureValuesBlockType::swash)
        } else if ascii_case_insensitive_eq(name.as_str(), "stylistic") {
            Ok(FontFeatureValuesBlockType::stylistic)
        } else if ascii_case_insensitive_eq(name.as_str(), "ornaments") {
            Ok(FontFeatureValuesBlockType::ornaments)
        } else if ascii_case_insensitive_eq(name.as_str(), "annotation") {
            Ok(FontFeatureValuesBlockType::annotation)
        } else if ascii_case_insensitive_eq(name.as_str(), "character-variant") {
            Ok(FontFeatureValuesBlockType::character_variant)
        } else if ascii_case_insensitive_eq(name.as_str(), "styleset") {
            Ok(FontFeatureValuesBlockType::styleset)
        } else {
            Err(PreciseParseError { kind: ParseErrorKind::AtRuleBodyInvalid, at: input.pos })
        }
    }

    /// Parses one feature-type block into the matching declaration list of
    /// the rule.
    pub fn parse_block(
        &self,
        prelude: FontFeatureValuesBlockType,
        input: &mut TokenStream,
        rule: &mut FontFeatureValuesAtRule,
    ) -> (r: Result<(), PreciseParseError>)
        requires
            old(input).wf(),
            feature_values_rule_has_unique_names(*old(rule)),
        ensures
            final(input).wf(),
            final(input).tokens@ == old(input).tokens@,
            old(input).pos <= final(input).pos,
            final(rule).family_names@ == old(rule).family_names@,
            feature_values_rule_has_unique_names(*final(rule)),
            !(prelude is swash) ==> final(rule).swash@ == old(rule).swash@,
            !(prelude is stylistic) ==> final(rule).stylistic@ == old(rule).stylistic@,
            !(prelude is ornaments) ==> final(rule).ornaments@ == old(rule).ornaments@,
            !(prelude is annotation) ==> final(rule).annotation@ == old(rule).annotation@,
            !(prelude is character_variant) ==> final(rule).character_variant@ == old(rule).character_variant@,
            !(prelude is styleset) ==> final(rule).styleset@ == old(rule).styleset@,
    {
        match prelude {
            FontFeatureValuesBlockType::swash => FontFeatureValuesDeclarationsParser::parseBlock(
                input,
                self.context,
                &mut rule.swash,
            ),
            FontFeatureValuesBlockType::stylistic => FontFeatureValuesDeclarationsParser::parseBlock(
                input,
                self.context,
                &mut rule.stylistic,
            ),
            FontFeatureValuesBlockType::ornaments => FontFeatureValuesDeclarationsParser::parseBlock(
                input,
                self.context,
                &mut rule.ornaments,
            ),
            FontFeatureValuesBlockType::annotation => FontFeatureValuesDeclarationsParser::parseBlock(
                input,
                self.context,
                &mut rule.annotation,
            ),
            FontFeatureValuesBlockType::character_variant => FontFeatureValuesDeclarationsParser::parseBlock(
                input,
                self.context,
                &mut rule.character_variant,
            ),
            FontFeatureValuesBlockType::styleset => FontFeatureValuesDeclarationsParser::parseBlock(
                input,
                self.context,
                &mut rule.styleset,
            ),
        }
    }
}

impl FontFeatureValuesAtRule {
    /// Parses an `@font-feature-values` body through its closing brace: a
    /// sequence of feature-type blocks.
    #[verifier::loop_isolation(false)]
    pub fn parse_body(
        context: &ParserContext,
        input: &mut TokenStream,
        family_names: Vec<FamilyName>,
    ) -> (r: Result<FontFeatureValuesAtRule, PreciseParseError>)
        requires
            old(input).wf(),
        ensures
            final(input).wf(),
            final(input).tokens@ == old(input).tokens@,
            old(input).pos <= final(input).pos,
            r matches Ok(rule) ==> rule.family_names@ == family_names@
                && feature_values_rule_has_unique_names(rule),
            ({
                let j = old(input).spec_next_pos();
                let toks = old(input).tokens@;
                &&& j == toks.len() ==> (r matches Ok(rule) && rule.swash@.len() == 0
                    && rule.stylistic@.len() == 0 && rule.ornaments@.len() == 0
                    && rule.annotation@.len() == 0 && rule.character_variant@.len() == 0
                    && rule.styleset@.len() == 0)
                &&& j < toks.len() && toks[j] is CloseCurlyBracket ==> (r matches Ok(rule)
                    && rule.swash@.len() == 0 && rule.stylistic@.len() == 0 && rule.ornaments@.len()
                    == 0 && rule.annotation@.len() == 0 && rule.character_variant@.len() == 0
                    && rule.styleset@.len() == 0 && final(input).pos == j + 1)
            }),
    {
        let parser = FontFeatureValuesAtRuleParser { context };
        let mut rule = FontFeatureValuesAtRule {
            family_names,
            swash: Vec::new(),
            stylistic: Vec::new(),
            ornaments: Vec::new(),
            annotation: Vec::new(),
            character_variant: Vec::new(),
            styleset: Vec::new(),
        };
        loop
            invariant
                input.wf(),
                input.tokens@ == old(input).tokens@,
                old(input).pos <= input.pos,
                rule.family_names@ == family_names@,
                feature_values_rule_has_unique_names(rule),
                ({
                    let j = old(input).spec_next_pos();
                    let toks = old(input).tokens@;
                    (j == toks.len() || (j < toks.len() && toks[j] is CloseCurlyBracket))
                        ==> input.pos == old(input).pos && rule.swash@.len() == 0
                        && rule.stylistic@.len() == 0 && rule.ornaments@.len() == 0
                        && rule.annotation@.len() == 0 && rule.character_variant@.len() == 0
                        && rule.styleset@.len() == 0
                }),
            decreases input.tokens@.len() - input.pos,
        {
            input.skip_whitespace();
            match input.peek() {
                None => {
                    return Ok(rule);
                },
                Some(CssToken::CloseCurlyBracket) => {
                    let _ = match input.next() {
                        Ok(t) => t,
                        Err(e) => {
                            return Err(e);
                        },
                    };
                    return Ok(rule);
                },
                Some(CssToken::AtKeyword(_)) => {
                    let name = match input.next() {
                        Ok(CssToken::AtKeyword(name)) => name,
                        Ok(t) => {
                            return Err(input.new_unexpected_token_error(t));
                        },
                        Err(e) => {
                            return Err(e);
                        },
                    };
                    let block_type = match parser.parse_prelude(name, input) {
                        Ok(b) => b,
                        Err(e) => {
                            return Err(e);
                        },
                    };
                    match input.next() {
                        Ok(CssToken::CurlyBracketBlock) => {},
                        Ok(t) => {
                            return Err(input.new_unexpected_token_error(t));
                        },
                        Err(e) => {
                            return Err(e);
                        },
                    }
                    match parser.parse_block(block_type, input, &mut rule) {
                        Ok(()) => {},
                        Err(e) => {
                            return Err(e);
                        },
                    }
                },
                Some(t) => {
                    return Err(input.new_unexpected_token_error(t));
                },
            }
        }
    }
}

} // verus!
