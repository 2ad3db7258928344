//! The shape of what the lexing service hands back: a sequence of tokens,
//! each with a kind and a span, in character positions of the line.

use vstd::prelude::*;

verus! {

/// Kind of a lexed token or comment, as far as validation and highlighting
/// care. Literal kinds that color the same way are still kept apart, so a
/// token list mirrors the lexer's output one to one.
#[derive(Clone, Copy, PartialEq, Eq, Structural, Debug)]
pub enum TokenKind {
    /// `(`
    LParen,
    /// `)`
    RParen,
    /// `[`
    LBracket,
    /// `]`
    RBracket,
    /// `{`
    LBrace,
    /// `}`
    RBrace,
    /// `${`, opening a template interpolation
    DollarLBrace,
    /// A backtick, opening or closing a template literal
    BackQuote,
    /// A string literal
    Str,
    /// A template literal chunk
    Template,
    /// A regular expression literal
    Regex,
    /// A numeric literal
    Num,
    /// A bigint literal
    BigInt,
    /// A reserved keyword
    Keyword,
    /// The word `true`
    TrueWord,
    /// The word `false`
    FalseWord,
    /// The word `null`
    NullWord,
    /// Any other identifier
    Ident,
    /// Any other token (operators, separators, ...)
    Other,
    /// A comment
    Comment,
}

/// One token with its span, in character positions.
#[derive(Clone, Copy, PartialEq, Eq, Structural, Debug)]
pub struct Token {
    pub kind: TokenKind,
    pub start: usize,
    pub end: usize,
}

/// An opening bracket that the validation stack tracks.
pub open spec fn is_opener(k: TokenKind) -> bool {
    k == TokenKind::LParen || k == TokenKind::LBracket || k == TokenKind::LBrace || k
        == TokenKind::DollarLBrace
}

/// A closing bracket.
pub open spec fn is_closer(k: TokenKind) -> bool {
    k == TokenKind::RParen || k == TokenKind::RBracket || k == TokenKind::RBrace
}

/// The closer that matches an opener. `${` is closed by `}`.
pub open spec fn matches_pair(open: TokenKind, close: TokenKind) -> bool {
    ||| (open == TokenKind::LParen && close == TokenKind::RParen)
    ||| (open == TokenKind::LBracket && close == TokenKind::RBracket)
    ||| (open == TokenKind::LBrace && close == TokenKind::RBrace)
    ||| (open == TokenKind::DollarLBrace && close == TokenKind::RBrace)
}

/// The kinds of a token sequence, in order.
pub open spec fn kinds_of(ts: Seq<Token>) -> Seq<TokenKind> {
    ts.map_values(|t: Token| t.kind)
}

/// Spans lie within a line of `n` characters, in order and without overlap,
/// as the lexer produces them.
pub open spec fn tokens_wf(ts: Seq<Token>, n: int) -> bool {
    &&& forall|i: int| #![trigger ts[i]] 0 <= i < ts.len() ==> ts[i].start <= ts[i].end <= n
    &&& forall|i: int| #![trigger ts[i]] 0 < i < ts.len() ==> ts[i - 1].end <= ts[i].start
}

} // verus!
