//! Tokens of the Lox grammar and their source spans.
use vstd::prelude::*;

use crate::text::chars_eq;

verus! {

/// A byte range in the source text.
#[derive(Debug, Clone, Copy, PartialEq, Eq, Structural)]
pub struct Span {
    /// Byte offset of the first byte.
    pub offset: usize,
    /// Length in bytes.
    pub len: usize,
}

impl Span {
    pub fn new(offset: usize, len: usize) -> (s: Span)
        ensures
            s.offset == offset,
            s.len == len,
    {
        Span { offset, len }
    }
}

/// The kinds of Lox tokens.
#[derive(Debug, Clone, Copy, PartialEq, Eq, Structural)]
pub enum TokenKind {
    LeftParen,
    RightParen,
    LeftBrace,
    RightBrace,
    Comma,
    Dot,
    Minus,
    Plus,
    Semicolon,
    Slash,
    Star,
    Bang,
    BangEqual,
    Equal,
    EqualEqual,
    Greater,
    GreaterEqual,
    Less,
    LessEqual,
    Identifier,
    String,
    Number,
    And,
    Class,
    Else,
    False,
    Fun,
    For,
    If,
    Nil,
    Or,
    Print,
    Return,
    Super,
    This,
    True,
    Var,
    While,
    Eof,
}

/// A token: its kind, its text (for strings, the unescaped contents) and its span.
#[derive(Debug, Clone)]
pub struct Token {
    pub kind: TokenKind,
    pub lexeme: String,
    pub span: Span,
}

impl Token {
    pub open spec fn new_spec(kind: TokenKind, lexeme: String, span: Span) -> Token {
        Token { kind, lexeme, span }
    }

    pub fn new(kind: TokenKind, lexeme: String, span: Span) -> (t: Token)
        ensures
            t == Token::new_spec(kind, lexeme, span),
            t.kind == kind,
            t.lexeme@ == lexeme@,
            t.span == span,
    {
        Token { kind, lexeme, span }
    }

    /// A copy of this token.
    pub fn duplicate(&self) -> (t: Token)
        ensures
            t.kind == self.kind,
            t.lexeme@ == self.lexeme@,
            t.span == self.span,
    {
        Token { kind: self.kind, lexeme: self.lexeme.clone(), span: self.span }
    }
}

/// The tokens' byte spans follow one another without overlapping.
#[verifier::opaque]
pub open spec fn spans_in_order(t: Seq<Token>) -> bool {
    forall|i: int, j: int|
        0 <= i < j < t.len() ==> #[trigger] t[i].span.offset + t[i].span.len <= #[trigger] t[j].span.offset
}

/// A token list the parser accepts: it ends with the end-of-file token, and
/// the tokens' byte spans follow one another without overlapping.
pub open spec fn tokens_wf(t: Seq<Token>) -> bool {
    &&& t.len() > 0
    &&& t.last().kind == TokenKind::Eof
    &&& spans_in_order(t)
    &&& t.last().span.offset + t.last().span.len <= usize::MAX
}

/// The keyword a word spells, if any.
pub open spec fn keyword_of(w: Seq<char>) -> Option<TokenKind> {
    if w == seq!['a', 'n', 'd'] { Some(TokenKind::And) }
    else if w == seq!['c', 'l', 'a', 's', 's'] { Some(TokenKind::Class) }
    else if w == seq!['e', 'l', 's', 'e'] { Some(TokenKind::Else) }
    else if w == seq!['f', 'a', 'l', 's', 'e'] { Some(TokenKind::False) }
    else if w == seq!['f', 'u', 'n'] { Some(TokenKind::Fun) }
    else if w == seq!['f', 'o', 'r'] { Some(TokenKind::For) }
    else if w == seq!['i', 'f'] { Some(TokenKind::If) }
    else if w == seq!['n', 'i', 'l'] { Some(TokenKind::Nil) }
    else if w == seq!['o', 'r'] { Some(TokenKind::Or) }
    else if w == seq!['p', 'r', 'i', 'n', 't'] { Some(TokenKind::Print) }
    else if w == seq!['r', 'e', 't', 'u', 'r', 'n'] { Some(TokenKind::Return) }
    else if w == seq!['s', 'u', 'p', 'e', 'r'] { Some(TokenKind::Super) }
    else if w == seq!['t', 'h', 'i', 's'] { Some(TokenKind::This) }
    else if w == seq!['t', 'r', 'u', 'e'] { Some(TokenKind::True) }
    else if w == seq!['v', 'a', 'r'] { Some(TokenKind::Var) }
    else if w == seq!['w', 'h', 'i', 'l', 'e'] { Some(TokenKind::While) }
    else { None }
}

/// The keyword kind of a word held as characters.
pub fn keyword_kind_chars(w: &[char]) -> (k: Option<TokenKind>)
    ensures
        k == keyword_of(w@),
{
    if chars_eq(w, &['a', 'n', 'd']) { Some(TokenKind::And) }
    else if chars_eq(w, &['c', 'l', 'a', 's', 's']) { Some(TokenKind::Class) }
    else if chars_eq(w, &['e', 'l', 's', 'e']) { Some(TokenKind::Else) }
    else if chars_eq(w, &['f', 'a', 'l', 's', 'e']) { Some(TokenKind::False) }
    else if chars_eq(w, &['f', 'u', 'n']) { Some(TokenKind::Fun) }
    else if chars_eq(w, &['f', 'o', 'r']) { Some(TokenKind::For) }
    else if chars_eq(w, &['i', 'f']) { Some(TokenKind::If) }
    else if chars_eq(w, &['n', 'i', 'l']) { Some(TokenKind::Nil) }
    else if chars_eq(w, &['o', 'r']) { Some(TokenKind::Or) }
    else if chars_eq(w, &['p', 'r', 'i', 'n', 't']) { Some(TokenKind::Print) }
    else if chars_eq(w, &['r', 'e', 't', 'u', 'r', 'n']) { Some(TokenKind::Return) }
    else if chars_eq(w, &['s', 'u', 'p', 'e', 'r']) { Some(TokenKind::Super) }
    else if chars_eq(w, &['t', 'h', 'i', 's']) { Some(TokenKind::This) }
    else if chars_eq(w, &['t', 'r', 'u', 'e']) { Some(TokenKind::True) }
    else if chars_eq(w, &['v', 'a', 'r']) { Some(TokenKind::Var) }
    else if chars_eq(w, &['w', 'h', 'i', 'l', 'e']) { Some(TokenKind::While) }
    else { None }
}

} // verus!
