use css::errors::ParseErrorKind;
use css::tokens::CssToken;
use css::tokens::TokenStream;

fn ident(s: &str) -> CssToken {
    CssToken::Ident(s.to_owned())
}

#[test]
fn next_skips_whitespace_and_reports_end_of_input() {
    let mut input = TokenStream::new(vec![
        CssToken::WhiteSpace,
        ident("a"),
        CssToken::WhiteSpace,
    ]);
    assert_eq!(input.next(), Ok(ident("a")));
    let error = input.next().unwrap_err();
    assert_eq!(error.kind, ParseErrorKind::EndOfInput);
}

#[test]
fn peek_does_not_consume() {
    let mut input = TokenStream::new(vec![CssToken::WhiteSpace, ident("a")]);
    assert_eq!(input.peek(), Some(ident("a")));
    assert_eq!(input.peek(), Some(ident("a")));
    assert_eq!(input.next(), Ok(ident("a")));
    assert_eq!(input.peek(), None);
}

#[test]
fn position_and_reset_rewind_the_cursor() {
    let mut input = TokenStream::new(vec![ident("a"), ident("b")]);
    let saved = input.position();
    assert_eq!(input.next(), Ok(ident("a")));
    input.reset(saved);
    assert_eq!(input.next(), Ok(ident("a")));
    assert_eq!(input.next(), Ok(ident("b")));
}

#[test]
fn expect_exhausted_tolerates_trailing_whitespace_only() {
    let mut input = TokenStream::new(vec![ident("a"), CssToken::WhiteSpace]);
    assert_eq!(input.next(), Ok(ident("a")));
    assert!(input.expect_exhausted().is_ok());
    let mut trailing = TokenStream::new(vec![ident("a"), CssToken::WhiteSpace, ident("b")]);
    assert_eq!(trailing.next(), Ok(ident("a")));
    assert!(trailing.expect_exhausted().is_err());
}

#[test]
fn expect_integer_requires_an_integer_literal() {
    let mut input = TokenStream::new(vec![CssToken::Number {
        units: 2_000_000,
        int_value: Some(2),
    }]);
    assert_eq!(input.expect_integer(), Ok(2));
    let mut fractional = TokenStream::new(vec![CssToken::Number {
        units: 2_500_000,
        int_value: None,
    }]);
    assert!(fractional.expect_integer().is_err());
}

#[test]
fn expect_url_or_string_accepts_all_three_url_shapes() {
    let mut quoted = TokenStream::new(vec![CssToken::QuotedString("a".to_owned())]);
    assert_eq!(quoted.expect_url_or_string(), Ok("a".to_owned()));
    let mut unquoted = TokenStream::new(vec![CssToken::UnquotedUrl("b".to_owned())]);
    assert_eq!(unquoted.expect_url_or_string(), Ok("b".to_owned()));
    let mut functional = TokenStream::new(vec![
        CssToken::Function("url".to_owned()),
        CssToken::QuotedString("c".to_owned()),
        CssToken::CloseParenthesis,
    ]);
    assert_eq!(functional.expect_url_or_string(), Ok("c".to_owned()));
}

#[test]
fn collect_prelude_segment_stops_at_top_level_boundaries_only() {
    let mut input = TokenStream::new(vec![
        ident("a"),
        CssToken::Function("f".to_owned()),
        CssToken::Comma,
        CssToken::CloseParenthesis,
        ident("b"),
        CssToken::Comma,
        ident("c"),
    ]);
    let segment = input.collect_prelude_segment();
    assert_eq!(segment.len(), 5);
    assert_eq!(input.next(), Ok(CssToken::Comma));
    assert_eq!(input.next(), Ok(ident("c")));
}

#[test]
fn skip_invalid_rule_consumes_through_the_next_boundary() {
    let mut input = TokenStream::new(vec![
        ident("junk"),
        CssToken::CurlyBracketBlock,
        CssToken::Semicolon,
        CssToken::CloseCurlyBracket,
        ident("next"),
    ]);
    input.skip_invalid_rule();
    assert_eq!(input.next(), Ok(ident("next")));
}
