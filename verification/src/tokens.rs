//! Positioned lexical items and the cursor the grammars consume them
//! through.
//!
//! Tokenisation itself (text to tokens, comment stripping, numeric literal
//! scanning) is an external collaborator: the grammars here work on an
//! already materialised token sequence. Numeric token values are fixed-point
//! unit counts, as the `numbers` module defines them. Block contents are
//! held flat, between an opening token and its matching close token.

use vstd::prelude::*;
use crate::errors::ParseErrorKind;
use crate::errors::PreciseParseError;

verus! {

/// One lexical item.
#[derive(Debug, PartialEq)]
pub enum CssToken {
    Ident(String),
    AtKeyword(String),
    Hash(String),
    IdHash(String),
    QuotedString(String),
    UnquotedUrl(String),
    /// A number; `int_value` is present when the literal was an integer.
    Number { units: i64, int_value: Option<i32> },
    /// A percentage; `37.5%` carries the unit count of `0.375`.
    Percentage { unit_value_units: i64 },
    Dimension { units: i64, unit: String },
    WhiteSpace,
    Colon,
    Semicolon,
    Comma,
    Delim(char),
    Function(String),
    ParenthesisBlock,
    SquareBracketBlock,
    CurlyBracketBlock,
    CloseParenthesis,
    CloseSquareBracket,
    CloseCurlyBracket,
    BadUrl(String),
    BadString(String),
}

impl Clone for CssToken {
    fn clone(&self) -> (r: Self)
        ensures
            r == *self,
    {
        match self {
            CssToken::Ident(s) => CssToken::Ident(s.clone()),
            CssToken::AtKeyword(s) => CssToken::AtKeyword(s.clone()),
            CssToken::Hash(s) => CssToken::Hash(s.clone()),
            CssToken::IdHash(s) => CssToken::IdHash(s.clone()),
            CssToken::QuotedString(s) => CssToken::QuotedString(s.clone()),
            CssToken::UnquotedUrl(s) => CssToken::UnquotedUrl(s.clone()),
            CssToken::Number { units, int_value } => CssToken::Number {
                units: *units,
                int_value: *int_value,
            },
            CssToken::Percentage { unit_value_units } => CssToken::Percentage {
                unit_value_units: *unit_value_units,
            },
            CssToken::Dimension { units, unit } => CssToken::Dimension {
                units: *units,
                unit: unit.clone(),
            },
            CssToken::WhiteSpace => CssToken::WhiteSpace,
            CssToken::Colon => CssToken::Colon,
            CssToken::Semicolon => CssToken::Semicolon,
            CssToken::Comma => CssToken::Comma,
            CssToken::Delim(c) => CssToken::Delim(*c),
            CssToken::Function(s) => CssToken::Function(s.clone()),
            CssToken::ParenthesisBlock => CssToken::ParenthesisBlock,
            CssToken::SquareBracketBlock => CssToken::SquareBracketBlock,
            CssToken::CurlyBracketBlock => CssToken::CurlyBracketBlock,
            CssToken::CloseParenthesis => CssToken::CloseParenthesis,
            CssToken::CloseSquareBracket => CssToken::CloseSquareBracket,
            CssToken::CloseCurlyBracket => CssToken::CloseCurlyBracket,
            CssToken::BadUrl(s) => CssToken::BadUrl(s.clone()),
            CssToken::BadString(s) => CssToken::BadString(s.clone()),
        }
    }
}

pub open spec fn is_whitespace_token(t: CssToken) -> bool {
    t is WhiteSpace
}

/// A token that ends a prelude segment at its nesting level.
pub open spec fn spec_prelude_stop_token(t: CssToken) -> bool {
    ||| t is Comma
    ||| t is Semicolon
    ||| t is CurlyBracketBlock
    ||| t is CloseParenthesis
    ||| t is CloseSquareBracket
    ||| t is CloseCurlyBracket
}

/// The first index at or after `i` holding a non-whitespace token, or the
/// length if only whitespace remains.
pub open spec fn next_non_ws(tokens: Seq<CssToken>, i: int) -> int
    decreases tokens.len() - i,
{
    if i < 0 || i >= tokens.len() {
        i
    } else if !is_whitespace_token(tokens[i]) {
        i
    } else {
        next_non_ws(tokens, i + 1)
    }
}

pub proof fn lemma_next_non_ws(tokens: Seq<CssToken>, i: int)
    requires
        0 <= i <= tokens.len(),
    ensures
        i <= next_non_ws(tokens, i) <= tokens.len(),
        next_non_ws(tokens, i) < tokens.len() ==> !is_whitespace_token(
            tokens[next_non_ws(tokens, i)],
        ),
        forall|j: int| i <= j < next_non_ws(tokens, i) ==> is_whitespace_token(tokens[j]),
    decreases tokens.len() - i,
{
    if i < tokens.len() && is_whitespace_token(tokens[i]) {
        lemma_next_non_ws(tokens, i + 1);
    }
}

/// The grammars' cursor: a token sequence and the index of the next token
/// to consume.
pub struct TokenStream {
    pub tokens: Vec<CssToken>,
    pub pos: usize,
}

impl TokenStream {
    pub open spec fn wf(self) -> bool {
        self.pos <= self.tokens@.len()
    }

    pub open spec fn remaining(self) -> int {
        self.tokens@.len() - self.pos
    }

    /// The index the next `next()` call would read, whitespace skipped.
    pub open spec fn spec_next_pos(self) -> int {
        next_non_ws(self.tokens@, self.pos as int)
    }

    pub fn new(tokens: Vec<CssToken>) -> (r: TokenStream)
        ensures
            r.wf(),
            r.tokens@ == tokens@,
            r.pos == 0,
    {
        TokenStream { tokens, pos: 0 }
    }

    /// The current position, for a later `reset`: the try-then-rewind
    /// primitive the grammars use for lookahead.
    pub fn position(&self) -> (r: usize)
        ensures
            r == self.pos,
    {
        self.pos
    }

    pub fn reset(&mut self, saved: usize)
        requires
            saved <= old(self).tokens@.len(),
        ensures
            final(self).wf(),
            final(self).tokens@ == old(self).tokens@,
            final(self).pos == saved,
    {
        self.pos = saved;
    }

    pub fn is_exhausted(&self) -> (r: bool)
        requires
            self.wf(),
        ensures
            r == (self.remaining() == 0),
    {
        self.pos >= self.tokens.len()
    }

    /// Advances past any whitespace.
    pub fn skip_whitespace(&mut self)
        requires
            old(self).wf(),
        ensures
            final(self).wf(),
            final(self).tokens@ == old(self).tokens@,
            final(self).pos as int == old(self).spec_next_pos(),
            old(self).pos <= final(self).pos,
            final(self).pos < final(self).tokens@.len() ==> !is_whitespace_token(
                final(self).tokens@[final(self).pos as int],
            ),
    {
        proof {
            lemma_next_non_ws(self.tokens@, self.pos as int);
        }
        while self.pos < self.tokens.len() && matches!(self.tokens[self.pos], CssToken::WhiteSpace)
            invariant
                self.wf(),
                self.tokens@ == old(self).tokens@,
                old(self).pos <= self.pos,
                next_non_ws(self.tokens@, self.pos as int) == old(self).spec_next_pos(),
            decreases self.tokens@.len() - self.pos,
        {
            self.pos = self.pos + 1;
        }
    }

    /// The next non-whitespace token, without consuming it.
    pub fn peek(&self) -> (r: Option<CssToken>)
        requires
            self.wf(),
        ensures
            self.pos <= self.spec_next_pos() <= self.tokens@.len(),
            self.spec_next_pos() < self.tokens@.len() ==> r == Some(
                self.tokens@[self.spec_next_pos()],
            ),
            self.spec_next_pos() == self.tokens@.len() ==> r is None,
    {
        proof {
            lemma_next_non_ws(self.tokens@, self.pos as int);
        }
        let mut i: usize = self.pos;
        while i < self.tokens.len() && matches!(self.tokens[i], CssToken::WhiteSpace)
            invariant
                self.wf(),
                self.pos <= i <= self.tokens@.len(),
                next_non_ws(self.tokens@, i as int) == self.spec_next_pos(),
            decreases self.tokens@.len() - i,
        {
            i = i + 1;
        }
        if i < self.tokens.len() {
            Some(self.tokens[i].clone())
        } else {
            None
        }
    }

    /// The next non-whitespace token, consumed; end of input is an error at
    /// the end position.
    pub fn next(&mut self) -> (r: Result<CssToken, PreciseParseError>)
        requires
            old(self).wf(),
        ensures
            final(self).wf(),
            r matches Err(e) ==> (e.kind is EndOfInput || e.kind is UnexpectedToken),
            final(self).tokens@ == old(self).tokens@,
            old(self).pos <= final(self).pos,
            old(self).pos <= old(self).spec_next_pos() <= old(self).tokens@.len(),
            old(self).spec_next_pos() < old(self).tokens@.len() ==> (r matches Ok(t) && t == old(
                self,
            ).tokens@[old(self).spec_next_pos()] && final(self).pos == old(self).spec_next_pos()
                + 1),
            old(self).spec_next_pos() == old(self).tokens@.len() ==> (r matches Err(e) && e.kind
                == ParseErrorKind::EndOfInput && e.at == old(self).tokens@.len() && final(self).pos
                == old(self).spec_next_pos()),
    {
        proof {
            lemma_next_non_ws(self.tokens@, self.pos as int);
        }
        self.skip_whitespace();
        if self.pos < self.tokens.len() {
            let t = self.tokens[self.pos].clone();
            self.pos = self.pos + 1;
            Ok(t)
        } else {
            Err(
                PreciseParseError {
                    kind: ParseErrorKind::EndOfInput,
                    at: self.pos,
                },
            )
        }
    }

    /// The next token, whitespace included, without consuming it.
    pub fn peek_including_whitespace(&self) -> (r: Option<CssToken>)
        requires
            self.wf(),
        ensures
            self.pos < self.tokens@.len() ==> r == Some(self.tokens@[self.pos as int]),
            self.pos == self.tokens@.len() ==> r is None,
    {
        if self.pos < self.tokens.len() {
            Some(self.tokens[self.pos].clone())
        } else {
            None
        }
    }

    /// The next token with whitespace significant, as selector parsing needs
    /// it.
    pub fn next_including_whitespace(&mut self) -> (r: Result<CssToken, PreciseParseError>)
        requires
            old(self).wf(),
        ensures
            final(self).wf(),
            r matches Err(e) ==> (e.kind is EndOfInput || e.kind is UnexpectedToken),
            final(self).tokens@ == old(self).tokens@,
            old(self).pos <= final(self).pos,
            old(self).pos < old(self).tokens@.len() ==> (r matches Ok(t) && t == old(
                self,
            ).tokens@[old(self).pos as int] && final(self).pos == old(self).pos + 1),
            old(self).pos == old(self).tokens@.len() ==> (r matches Err(e) && e.kind
                == ParseErrorKind::EndOfInput && e.at == old(self).tokens@.len() && final(self).pos
                == old(self).pos),
    {
        if self.pos < self.tokens.len() {
            let t = self.tokens[self.pos].clone();
            self.pos = self.pos + 1;
            Ok(t)
        } else {
            Err(
                PreciseParseError {
                    kind: ParseErrorKind::EndOfInput,
                    at: self.pos,
                },
            )
        }
    }

    /// A failure of kind `Custom`, at the current position.
    pub fn new_custom_error(&self, error: crate::errors::CustomParseError) -> (r:
        PreciseParseError)
        ensures
            r.kind == ParseErrorKind::Custom(error),
            r.at == self.pos,
    {
        PreciseParseError { kind: ParseErrorKind::Custom(error), at: self.pos }
    }

    /// A failure over the given token, at the current position.
    pub fn new_unexpected_token_error(&self, token: CssToken) -> (r: PreciseParseError)
        ensures
            r.kind == ParseErrorKind::UnexpectedToken(token),
            r.at == self.pos,
    {
        PreciseParseError { kind: ParseErrorKind::UnexpectedToken(token), at: self.pos }
    }

    /// Consumes the next token, which must be an identifier.
    pub fn expect_ident(&mut self) -> (r: Result<String, PreciseParseError>)
        requires
            old(self).wf(),
        ensures
            final(self).wf(),
            r matches Err(e) ==> (e.kind is EndOfInput || e.kind is UnexpectedToken),
            final(self).tokens@ == old(self).tokens@,
            old(self).pos <= final(self).pos,
            old(self).pos <= old(self).spec_next_pos() <= old(self).tokens@.len(),
            ({
                let j = old(self).spec_next_pos();
                &&& j < old(self).tokens@.len() ==> (old(self).tokens@[j] matches CssToken::Ident(
                    s,
                ) ==> (r matches Ok(name) && name@ == s@ && final(self).pos == j + 1))
                &&& j < old(self).tokens@.len() && !(old(self).tokens@[j] is Ident) ==> r is Err
                &&& j == old(self).tokens@.len() ==> r is Err
            }),
    {
        match self.next() {
            Ok(CssToken::Ident(s)) => Ok(s),
            Ok(t) => Err(self.new_unexpected_token_error(t)),
            Err(e) => Err(e),
        }
    }

    /// Consumes the next token, which must be a quoted string.
    pub fn expect_string(&mut self) -> (r: Result<String, PreciseParseError>)
        requires
            old(self).wf(),
        ensures
            final(self).wf(),
            r matches Err(e) ==> (e.kind is EndOfInput || e.kind is UnexpectedToken),
            final(self).tokens@ == old(self).tokens@,
            old(self).pos <= final(self).pos,
            old(self).pos <= old(self).spec_next_pos() <= old(self).tokens@.len(),
            ({
                let j = old(self).spec_next_pos();
                &&& j < old(self).tokens@.len() ==> (old(
                    self,
                ).tokens@[j] matches CssToken::QuotedString(s) ==> (r matches Ok(v) && v@ == s@
                    && final(self).pos == j + 1))
                &&& j < old(self).tokens@.len() && !(old(self).tokens@[j] is QuotedString)
                    ==> r is Err
                &&& j == old(self).tokens@.len() ==> r is Err
            }),
    {
        match self.next() {
            Ok(CssToken::QuotedString(s)) => Ok(s),
            Ok(t) => Err(self.new_unexpected_token_error(t)),
            Err(e) => Err(e),
        }
    }

    /// Consumes the next token, which must be an unquoted URL, a quoted
    /// string, or a `url(...)` function around a quoted string, and yields
    /// the text.
    pub fn expect_url_or_string(&mut self) -> (r: Result<String, PreciseParseError>)
        requires
            old(self).wf(),
        ensures
            final(self).wf(),
            final(self).tokens@ == old(self).tokens@,
            old(self).pos <= final(self).pos,
            old(self).pos <= old(self).spec_next_pos() <= old(self).tokens@.len(),
            ({
                let j = old(self).spec_next_pos();
                &&& j < old(self).tokens@.len() ==> (old(
                    self,
                ).tokens@[j] matches CssToken::QuotedString(s) ==> (r matches Ok(v) && v@ == s@
                    && final(self).pos == j + 1))
                &&& j < old(self).tokens@.len() ==> (old(
                    self,
                ).tokens@[j] matches CssToken::UnquotedUrl(s) ==> (r matches Ok(v) && v@ == s@
                    && final(self).pos == j + 1))
                &&& j < old(self).tokens@.len() ==> (old(
                    self,
                ).tokens@[j] matches CssToken::Function(f) ==> {
                    &&& !crate::ascii::eq_ignore_ascii_case_seq(f@, "url"@) ==> r is Err
                    &&& crate::ascii::eq_ignore_ascii_case_seq(f@, "url"@) ==> (r matches Ok(v)
                        ==> ({
                        let k = next_non_ws(old(self).tokens@, j + 1);
                        &&& k < old(self).tokens@.len()
                        &&& old(self).tokens@[k] matches CssToken::QuotedString(s) && v@ == s@
                    }))
                })
                &&& j < old(self).tokens@.len() && !(old(self).tokens@[j] is QuotedString) && !(
                old(self).tokens@[j] is UnquotedUrl) && !(old(self).tokens@[j] is Function)
                    ==> (r matches Err(e) && e.kind == ParseErrorKind::UnexpectedToken(
                    old(self).tokens@[j],
                ))
                &&& j == old(self).tokens@.len() ==> (r matches Err(e) && e.kind
                    == ParseErrorKind::EndOfInput)
            }),
    {
        match self.next() {
            Ok(CssToken::QuotedString(s)) => Ok(s),
            Ok(CssToken::UnquotedUrl(s)) => Ok(s),
            Ok(CssToken::Function(name)) => {
                if !crate::ascii::ascii_case_insensitive_eq(name.as_str(), "url") {
                    return Err(self.new_unexpected_token_error(CssToken::Function(name)));
                }
                let url = match self.expect_string() {
                    Ok(u) => u,
                    Err(e) => {
                        return Err(e);
                    },
                };
                match self.next() {
                    Ok(CssToken::CloseParenthesis) => Ok(url),
                    Ok(t) => Err(self.new_unexpected_token_error(t)),
                    Err(e) => Err(e),
                }
            },
            Ok(t) => Err(self.new_unexpected_token_error(t)),
            Err(e) => Err(e),
        }
    }

    /// Consumes the next token, which must be an integer number.
    pub fn expect_integer(&mut self) -> (r: Result<i32, PreciseParseError>)
        requires
            old(self).wf(),
        ensures
            final(self).wf(),
            final(self).tokens@ == old(self).tokens@,
            old(self).pos <= final(self).pos,
            old(self).pos <= old(self).spec_next_pos() <= old(self).tokens@.len(),
            ({
                let j = old(self).spec_next_pos();
                &&& j < old(self).tokens@.len() ==> (old(self).tokens@[j] matches CssToken::Number {
                    int_value: Some(iv),
                    ..
                } ==> (r matches Ok(i) && i == iv && final(self).pos == j + 1))
                &&& j < old(self).tokens@.len() && !(old(self).tokens@[j] matches CssToken::Number {
                    int_value: Some(_),
                    ..
                }) ==> r is Err
                &&& j == old(self).tokens@.len() ==> r is Err
            }),
    {
        match self.next() {
            Ok(CssToken::Number { units, int_value }) => match int_value {
                Some(i) => Ok(i),
                None => Err(
                    self.new_unexpected_token_error(CssToken::Number { units, int_value }),
                ),
            },
            Ok(t) => Err(self.new_unexpected_token_error(t)),
            Err(e) => Err(e),
        }
    }

    /// Succeeds only when nothing but whitespace is left.
    pub fn expect_exhausted(&mut self) -> (r: Result<(), PreciseParseError>)
        requires
            old(self).wf(),
        ensures
            final(self).wf(),
            final(self).tokens@ == old(self).tokens@,
            old(self).pos <= final(self).pos,
            old(self).pos <= old(self).spec_next_pos() <= old(self).tokens@.len(),
            (r is Ok) <==> old(self).spec_next_pos() == old(self).tokens@.len(),
    {
        proof {
            lemma_next_non_ws(self.tokens@, self.pos as int);
        }
        self.skip_whitespace();
        if self.pos < self.tokens.len() {
            let t = self.tokens[self.pos].clone();
            Err(self.new_unexpected_token_error(t))
        } else {
            Ok(())
        }
    }

    /// Collects everything up to (not including) the token that would close
    /// the enclosing block, nested blocks kept whole.
    pub fn collect_until_block_end(&mut self) -> (r: Vec<CssToken>)
        requires
            old(self).wf(),
        ensures
            final(self).wf(),
            final(self).tokens@ == old(self).tokens@,
            old(self).pos <= final(self).pos,
            r@ == old(self).tokens@.subrange(old(self).pos as int, final(self).pos as int),
    {
        let mut depth: usize = 0;
        let mut out: Vec<CssToken> = Vec::new();
        loop
            invariant
                self.wf(),
                self.tokens@ == old(self).tokens@,
                old(self).pos <= self.pos,
                out@ == old(self).tokens@.subrange(old(self).pos as int, self.pos as int),
            decreases self.tokens@.len() - self.pos,
        {
            if self.pos >= self.tokens.len() {
                return out;
            }
            let t = &self.tokens[self.pos];
            let is_close = matches!(
                t,
                CssToken::CloseParenthesis
                    | CssToken::CloseSquareBracket
                    | CssToken::CloseCurlyBracket
            );
            if is_close && depth == 0 {
                return out;
            }
            let is_open = matches!(
                t,
                CssToken::Function(_)
                    | CssToken::ParenthesisBlock
                    | CssToken::SquareBracketBlock
                    | CssToken::CurlyBracketBlock
            );
            if is_open && depth < usize::MAX {
                depth = depth + 1;
            } else if is_close {
                depth = depth - 1;
            }
            let copied = self.tokens[self.pos].clone();
            out.push(copied);
            self.pos = self.pos + 1;
            assert(out@ =~= old(self).tokens@.subrange(old(self).pos as int, self.pos as int));
        }
    }

    /// Collects a prelude segment: everything up to (not including) a
    /// top-level comma, semicolon, opening brace or the token closing the
    /// enclosing block, nested blocks kept whole. It consumes at least one
    /// token unless it stands at a segment boundary already.
    pub fn collect_prelude_segment(&mut self) -> (r: Vec<CssToken>)
        requires
            old(self).wf(),
        ensures
            final(self).wf(),
            final(self).tokens@ == old(self).tokens@,
            old(self).pos <= final(self).pos,
            r@ == old(self).tokens@.subrange(old(self).pos as int, final(self).pos as int),
            old(self).pos < old(self).tokens@.len() && !spec_prelude_stop_token(
                old(self).tokens@[old(self).pos as int],
            ) ==> old(self).pos < final(self).pos,
            old(self).pos < old(self).tokens@.len() && spec_prelude_stop_token(
                old(self).tokens@[old(self).pos as int],
            ) ==> final(self).pos == old(self).pos,
            old(self).pos == old(self).tokens@.len() ==> final(self).pos == old(self).pos,
    {
        let mut depth: usize = 0;
        let mut out: Vec<CssToken> = Vec::new();
        loop
            invariant
                self.wf(),
                self.tokens@ == old(self).tokens@,
                old(self).pos <= self.pos,
                out@ == old(self).tokens@.subrange(old(self).pos as int, self.pos as int),
                self.pos == old(self).pos ==> depth == 0,
                self.pos > old(self).pos ==> old(self).pos < old(self).tokens@.len()
                    && !spec_prelude_stop_token(old(self).tokens@[old(self).pos as int]),
            decreases self.tokens@.len() - self.pos,
        {
            if self.pos >= self.tokens.len() {
                return out;
            }
            let t = &self.tokens[self.pos];
            let is_close = matches!(
                t,
                CssToken::CloseParenthesis
                    | CssToken::CloseSquareBracket
                    | CssToken::CloseCurlyBracket
            );
            if depth == 0 && (is_close || matches!(
                t,
                CssToken::Comma | CssToken::Semicolon | CssToken::CurlyBracketBlock
            )) {
                return out;
            }
            let is_open = matches!(
                t,
                CssToken::Function(_)
                    | CssToken::ParenthesisBlock
                    | CssToken::SquareBracketBlock
                    | CssToken::CurlyBracketBlock
            );
            if is_open && depth < usize::MAX {
                depth = depth + 1;
            } else if is_close {
                depth = depth - 1;
            }
            let copied = self.tokens[self.pos].clone();
            out.push(copied);
            self.pos = self.pos + 1;
            assert(out@ =~= old(self).tokens@.subrange(old(self).pos as int, self.pos as int));
        }
    }

    /// Collects a declaration value: everything up to (not including) a
    /// top-level semicolon or the token closing the enclosing block, nested
    /// blocks kept whole and commas included.
    pub fn collect_declaration_value(&mut self) -> (r: Vec<CssToken>)
        requires
            old(self).wf(),
        ensures
            final(self).wf(),
            final(self).tokens@ == old(self).tokens@,
            old(self).pos <= final(self).pos,
            r@ == old(self).tokens@.subrange(old(self).pos as int, final(self).pos as int),
    {
        let mut depth: usize = 0;
        let mut out: Vec<CssToken> = Vec::new();
        loop
            invariant
                self.wf(),
                self.tokens@ == old(self).tokens@,
                old(self).pos <= self.pos,
                out@ == old(self).tokens@.subrange(old(self).pos as int, self.pos as int),
            decreases self.tokens@.len() - self.pos,
        {
            if self.pos >= self.tokens.len() {
                return out;
            }
            let t = &self.tokens[self.pos];
            let is_close = matches!(
                t,
                CssToken::CloseParenthesis
                    | CssToken::CloseSquareBracket
                    | CssToken::CloseCurlyBracket
            );
            if depth == 0 && (is_close || matches!(t, CssToken::Semicolon)) {
                return out;
            }
            let is_open = matches!(
                t,
                CssToken::Function(_)
                    | CssToken::ParenthesisBlock
                    | CssToken::SquareBracketBlock
                    | CssToken::CurlyBracketBlock
            );
            if is_open && depth < usize::MAX {
                depth = depth + 1;
            } else if is_close {
                depth = depth - 1;
            }
            let copied = self.tokens[self.pos].clone();
            out.push(copied);
            self.pos = self.pos + 1;
            assert(out@ =~= old(self).tokens@.subrange(old(self).pos as int, self.pos as int));
        }
    }

    /// Abandons one malformed rule: consumes up to and including the next
    /// top-level semicolon or one whole `{}` block, stopping short of the
    /// token that would close the enclosing block. It consumes at least one
    /// token unless the list is already at its end.
    pub fn skip_invalid_rule(&mut self)
        requires
            old(self).wf(),
        ensures
            final(self).wf(),
            final(self).tokens@ == old(self).tokens@,
            old(self).pos <= final(self).pos,
            old(self).pos < old(self).tokens@.len() && !(old(self).tokens@[old(self).pos as int]
                is CloseCurlyBracket) ==> old(self).pos < final(self).pos,
    {
        loop
            invariant
                self.wf(),
                self.tokens@ == old(self).tokens@,
                old(self).pos <= self.pos,
            decreases self.tokens@.len() - self.pos,
        {
            if self.pos >= self.tokens.len() {
                return ;
            }
            let t = &self.tokens[self.pos];
            if matches!(t, CssToken::CloseCurlyBracket) {
                return ;
            }
            if matches!(t, CssToken::Semicolon) {
                self.pos = self.pos + 1;
                return ;
            }
            if matches!(t, CssToken::CurlyBracketBlock) {
                self.pos = self.pos + 1;
                self.consume_to_end_of_block();
                return ;
            }
            let is_open = matches!(
                t,
                CssToken::Function(_) | CssToken::ParenthesisBlock | CssToken::SquareBracketBlock
            );
            self.pos = self.pos + 1;
            if is_open {
                self.consume_to_end_of_block();
            }
        }
    }

    /// Consumes tokens to the end of the enclosing block and past its close
    /// token, used to abandon the rest of a block.
    pub fn consume_to_end_of_block(&mut self)
        requires
            old(self).wf(),
        ensures
            final(self).wf(),
            final(self).tokens@ == old(self).tokens@,
            old(self).pos <= final(self).pos,
    {
        let mut depth: usize = 0;
        loop
            invariant
                self.wf(),
                self.tokens@ == old(self).tokens@,
                old(self).pos <= self.pos,
            decreases self.tokens@.len() - self.pos,
        {
            if self.pos >= self.tokens.len() {
                return ;
            }
            let t = &self.tokens[self.pos];
            let is_close = matches!(
                t,
                CssToken::CloseParenthesis
                    | CssToken::CloseSquareBracket
                    | CssToken::CloseCurlyBracket
            );
            let is_open = matches!(
                t,
                CssToken::Function(_)
                    | CssToken::ParenthesisBlock
                    | CssToken::SquareBracketBlock
                    | CssToken::CurlyBracketBlock
            );
            self.pos = self.pos + 1;
            if is_close && depth == 0 {
                return ;
            }
            if is_open && depth < usize::MAX {
                depth = depth + 1;
            } else if is_close {
                depth = depth - 1;
            }
        }
    }
}

} // verus!
