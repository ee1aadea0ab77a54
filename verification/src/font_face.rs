//! The `@font-face` rule body, and the `font-feature-settings` descriptor
//! value: an OpenType feature tag with its selection value.

use vstd::prelude::*;
use vstd::string::StringSliceAdditionalSpecFns;
use crate::ascii::ascii_case_insensitive_eq;
use crate::ascii::eq_ignore_ascii_case_seq;
use crate::ascii::is_printable_ascii_char;
use crate::ascii::str_is_printable_ascii;
use crate::context::ParserContext;
use crate::errors::CustomParseError;
use crate::errors::ParseErrorKind;
use crate::errors::PreciseParseError;
use crate::properties::PropertyDeclaration;
use crate::properties::PropertyDeclarations;
use crate::properties::SpecifiedValue;
use crate::properties::UnparsedPropertyValue;
use crate::properties::declarations_have_unique_names;
use crate::properties::lemma_update_or_push_keeps_unique_names;
use crate::properties::update_or_push_declaration;
use crate::rules::FontFaceAtRule;
use crate::tokens::CssToken;
use crate::tokens::TokenStream;

verus! {

/// One OpenType feature setting: a four-byte printable-ASCII tag and its
/// selection value (`on` is 1, `off` is 0).
#[derive(Debug, PartialEq, Eq, PartialOrd, Ord, Hash)]
pub struct FontFeatureSetting(pub String, pub u32);

impl FontFeatureSetting {
    /// Parses one feature setting: a quoted four-byte printable-ASCII tag,
    /// then a non-negative integer or `on`/`off`.
    pub fn parse(input: &mut TokenStream) -> (r: Result<FontFeatureSetting, PreciseParseError>)
        requires
            old(input).wf(),
        ensures
            final(input).wf(),
            final(input).tokens@ == old(input).tokens@,
            old(input).pos <= final(input).pos,
            r is Ok ==> final(input).pos > old(input).pos,
            ({
                let j = old(input).spec_next_pos();
                let toks = old(input).tokens@;
                &&& j < toks.len() ==> (toks[j] matches CssToken::QuotedString(tag) ==> {
                    &&& vstd::utf8::encode_utf8(tag@).len() != 4 ==> (r matches Err(e) && e.kind
                        matches ParseErrorKind::Custom(ce) && ce
                        matches CustomParseError::FontFeatureSettingOpenTypeFeatureTagMustBeFourCharacters(
                        t,
                    ) && t@ == tag@ && final(input).pos == j + 1)
                    &&& vstd::utf8::encode_utf8(tag@).len() == 4 && !(forall|i: int|
                        0 <= i < tag@.len() ==> is_printable_ascii_char(tag@[i])) ==> (
                    r matches Err(e) && e.kind matches ParseErrorKind::Custom(ce) && ce
                        matches CustomParseError::FontFeatureSettingOpenTypeFeatureTagMustBePrintableAscii(
                        t,
                    ) && t@ == tag@ && final(input).pos == j + 1)
                    &&& vstd::utf8::encode_utf8(tag@).len() == 4 && (forall|i: int|
                        0 <= i < tag@.len() ==> is_printable_ascii_char(tag@[i])) ==> ({
                        let k = crate::tokens::next_non_ws(toks, j + 1);
                        &&& k < toks.len() ==> (toks[k] matches CssToken::Number {
                            int_value: Some(i),
                            ..
                        } ==> {
                            &&& i < 0 ==> (r matches Err(e) && e.kind
                                matches ParseErrorKind::Custom(ce) && ce
                                matches CustomParseError::FontFeatureSettingIntegerMustBePositive(
                                v,
                            ) && v == i)
                            &&& i >= 0 ==> (r matches Ok(s) && s.0@ == tag@ && s.1 == i)
                        })
                        &&& k < toks.len() ==> (toks[k] matches CssToken::Ident(word) ==> {
                            &&& eq_ignore_ascii_case_seq(word@, "on"@) ==> (r matches Ok(s) && s.0@
                                == tag@ && s.1 == 1)
                            &&& !eq_ignore_ascii_case_seq(word@, "on"@)
                                && eq_ignore_ascii_case_seq(word@, "off"@) ==> (r matches Ok(s)
                                && s.0@ == tag@ && s.1 == 0)
                            &&& !eq_ignore_ascii_case_seq(word@, "on"@)
                                && !eq_ignore_ascii_case_seq(word@, "off"@) ==> (r matches Err(e)
                                && e.kind matches ParseErrorKind::Custom(ce) && ce
                                matches CustomParseError::FontFeatureSettingIfNotAnIntegerMustBeOnOrOff(
                                w,
                            ) && w@ == word@)
                        })
                    })
                })
                &&& j < toks.len() && !(toks[j] is QuotedString) ==> r is Err
                &&& j == toks.len() ==> r is Err
            }),
    {
        let tag = match input.expect_string() {
            Ok(t) => t,
            Err(e) => {
                return Err(e);
            },
        };
        let tag_bytes = tag.as_str().as_bytes();
        let tag_byte_length = tag_bytes.len();
        proof {
            assert(tag_bytes@ == vstd::utf8::encode_utf8(tag@));
            assert(tag_byte_length == vstd::utf8::encode_utf8(tag@).len());
        }
        if tag_byte_length != 4 {
            return Err(
                input.new_custom_error(
                    CustomParseError::FontFeatureSettingOpenTypeFeatureTagMustBeFourCharacters(tag),
                ),
            );
        }
        if !str_is_printable_ascii(tag.as_str()) {
            return Err(
                input.new_custom_error(
                    CustomParseError::FontFeatureSettingOpenTypeFeatureTagMustBePrintableAscii(tag),
                ),
            );
        }
        let save = input.position();
        match input.expect_integer() {
            Ok(integer) => {
                if integer < 0 {
                    Err(
                        input.new_custom_error(
                            CustomParseError::FontFeatureSettingIntegerMustBePositive(integer),
                        ),
                    )
                } else {
                    Ok(FontFeatureSetting(tag, integer as u32))
                }
            },
            Err(_) => {
                input.reset(save);
                let word = match input.expect_ident() {
                    Ok(w) => w,
                    Err(e) => {
                        return Err(e);
                    },
                };
                if ascii_case_insensitive_eq(word.as_str(), "on") {
                    Ok(FontFeatureSetting(tag, 1))
                } else if ascii_case_insensitive_eq(word.as_str(), "off") {
                    Ok(FontFeatureSetting(tag, 0))
                } else {
                    Err(
                        input.new_custom_error(
                            CustomParseError::FontFeatureSettingIfNotAnIntegerMustBeOnOrOff(word),
                        ),
                    )
                }
            },
        }
    }
}

/// The descriptor names `@font-face` accepts.
pub open spec fn spec_is_font_face_descriptor(name: Seq<char>) -> bool {
    ||| eq_ignore_ascii_case_seq(name, "font-family"@)
    ||| eq_ignore_ascii_case_seq(name, "src"@)
    ||| eq_ignore_ascii_case_seq(name, "font-style"@)
    ||| eq_ignore_ascii_case_seq(name, "font-weight"@)
    ||| eq_ignore_ascii_case_seq(name, "font-stretch"@)
    ||| eq_ignore_ascii_case_seq(name, "unicode-range"@)
    ||| eq_ignore_ascii_case_seq(name, "font-feature-settings"@)
    ||| eq_ignore_ascii_case_seq(name, "font-variation-settings"@)
    ||| eq_ignore_ascii_case_seq(name, "font-display"@)
    ||| eq_ignore_ascii_case_seq(name, "font-language-override"@)
}

fn is_font_face_descriptor(name: &str) -> (r: bool)
    ensures
        r == spec_is_font_face_descriptor(name@),
{
    ascii_case_insensitive_eq(name, "font-family") || ascii_case_insensitive_eq(name, "src")
        || ascii_case_insensitive_eq(name, "font-style") || ascii_case_insensitive_eq(
        name,
        "font-weight",
    ) || ascii_case_insensitive_eq(name, "font-stretch") || ascii_case_insensitive_eq(
        name,
        "unicode-range",
    ) || ascii_case_insensitive_eq(name, "font-feature-settings") || ascii_case_insensitive_eq(
        name,
        "font-variation-settings",
    ) || ascii_case_insensitive_eq(name, "font-display") || ascii_case_insensitive_eq(
        name,
        "font-language-override",
    )
}

impl FontFaceAtRule {
    /// Parses an `@font-face` body through its closing brace: known
    /// descriptors only, with `font-feature-settings` parsed into feature
    /// settings and everything else kept raw.
    #[verifier::loop_isolation(false)]
    pub fn parse_body(context: &ParserContext, input: &mut TokenStream) -> (r: Result<
        FontFaceAtRule,
        PreciseParseError,
    >)
        requires
            old(input).wf(),
        ensures
            final(input).wf(),
            final(input).tokens@ == old(input).tokens@,
            old(input).pos <= final(input).pos,
            r matches Ok(rule) ==> declarations_have_unique_names(
                rule.property_declarations.0@,
            ),
            ({
                let j = old(input).spec_next_pos();
                let toks = old(input).tokens@;
                &&& j == toks.len() ==> (r matches Ok(rule) && rule.font_feature_settings@.len()
                    == 0 && rule.property_declarations.0@.len() == 0)
                &&& j < toks.len() && toks[j] is CloseCurlyBracket ==> (r matches Ok(rule)
                    && rule.font_feature_settings@.len() == 0
                    && rule.property_declarations.0@.len() == 0 && final(input).pos == j + 1)
            }),
    {
        let mut font_feature_settings: Vec<FontFeatureSetting> = Vec::new();
        let mut declarations: Vec<PropertyDeclaration> = Vec::new();
        loop
            invariant
                input.wf(),
                input.tokens@ == old(input).tokens@,
                old(input).pos <= input.pos,
                declarations_have_unique_names(declarations@),
                ({
                    let j = old(input).spec_next_pos();
                    let toks = old(input).tokens@;
                    (j == toks.len() || (j < toks.len() && toks[j] is CloseCurlyBracket))
                        ==> input.pos == old(input).pos && font_feature_settings@.len() == 0
                        && declarations@.len() == 0
                }),
            decreases input.tokens@.len() - input.pos,
        {
            input.skip_whitespace();
            match input.peek() {
                None => {
                    return Ok(FontFaceAtRule {
                        font_feature_settings,
                        property_declarations: PropertyDeclarations(declarations),
                    });
                },
                Some(CssToken::CloseCurlyBracket) => {
                    let _ = match input.next() {
                        Ok(t) => t,
                        Err(e) => {
                            return Err(e);
                        },
                    };
                    return Ok(FontFaceAtRule {
                        font_feature_settings,
                        property_declarations: PropertyDeclarations(declarations),
                    });
                },
                Some(CssToken::Semicolon) => {
                    let _ = match input.next() {
                        Ok(t) => t,
                        Err(e) => {
                            return Err(e);
                        },
                    };
                },
                _ => {
                    let name = match input.expect_ident() {
                        Ok(n) => n,
                        Err(e) => {
                            return Err(e);
                        },
                    };
                    if !is_font_face_descriptor(name.as_str()) {
                        return Err(
                            input.new_custom_error(
                                CustomParseError::UnsupportedFontFaceProperty(name),
                            ),
                        );
                    }
                    match input.next() {
                        Ok(CssToken::Colon) => {},
                        Ok(t) => {
                            return Err(input.new_unexpected_token_error(t));
                        },
                        Err(e) => {
                            return Err(e);
                        },
                    }
                    if ascii_case_insensitive_eq(name.as_str(), "font-feature-settings") {
                        let ghost before_settings = input.pos as int;
                        let mut settings: Vec<FontFeatureSetting> = Vec::new();
                        loop
                            invariant
                                input.wf(),
                                input.tokens@ == old(input).tokens@,
                                before_settings <= input.pos,
                            decreases input.tokens@.len() - input.pos,
                        {
                            let setting = match FontFeatureSetting::parse(input) {
                                Ok(s) => s,
                                Err(e) => {
                                    return Err(e);
                                },
                            };
                            settings.push(setting);
                            match input.peek() {
                                Some(CssToken::Comma) => {
                                    let _ = match input.next() {
                                        Ok(t) => t,
                                        Err(e) => {
                                            return Err(e);
                                        },
                                    };
                                },
                                _ => {
                                    break ;
                                },
                            }
                        }
                        font_feature_settings = settings;
                    } else {
                        let tokens = input.collect_declaration_value();
                        let declaration = PropertyDeclaration {
                            name,
                            value: SpecifiedValue::Unparsed(UnparsedPropertyValue { tokens }),
                            important: false,
                        };
                        proof {
                            lemma_update_or_push_keeps_unique_names(declarations@, declaration);
                        }
                        update_or_push_declaration(&mut declarations, declaration);
                    }
                },
            }
        }
    }
}

} // verus!
