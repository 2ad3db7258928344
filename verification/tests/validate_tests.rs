use repl_core::token::{Token, TokenKind};
use repl_core::validate::{validate, ValidationOutcome};

fn toks(kinds: &[TokenKind]) -> Vec<Token> {
    kinds
        .iter()
        .enumerate()
        .map(|(i, k)| Token { kind: *k, start: i, end: i + 1 })
        .collect()
}

#[test]
fn empty_buffer_is_valid() {
    assert_eq!(validate(&Vec::new()), ValidationOutcome::Valid);
}

#[test]
fn unclosed_function_body_is_incomplete() {
    // `function f() {`
    let t = toks(&[
        TokenKind::Keyword,
        TokenKind::Ident,
        TokenKind::LParen,
        TokenKind::RParen,
        TokenKind::LBrace,
    ]);
    assert_eq!(validate(&t), ValidationOutcome::Incomplete);
}

#[test]
fn balanced_parens_are_valid() {
    // `(1+2)`
    let t = toks(&[
        TokenKind::LParen,
        TokenKind::Num,
        TokenKind::Other,
        TokenKind::Num,
        TokenKind::RParen,
    ]);
    assert_eq!(validate(&t), ValidationOutcome::Valid);
}

#[test]
fn object_literal_is_valid() {
    // `{ a: 1 }`
    let t = toks(&[
        TokenKind::LBrace,
        TokenKind::Ident,
        TokenKind::Other,
        TokenKind::Num,
        TokenKind::RBrace,
    ]);
    assert_eq!(validate(&t), ValidationOutcome::Valid);
}

#[test]
fn lone_closer_is_deferred_to_the_engine() {
    // `)` alone: deliberately valid with no diagnostic.
    let t = toks(&[TokenKind::RParen]);
    assert_eq!(validate(&t), ValidationOutcome::Valid);
    // Even with junk after it, the verdict is already settled.
    let t2 = toks(&[TokenKind::RBracket, TokenKind::LParen]);
    assert_eq!(validate(&t2), ValidationOutcome::Valid);
}

#[test]
fn mismatched_closer_names_the_opener() {
    // `( ]`
    let t = toks(&[TokenKind::LParen, TokenKind::RBracket]);
    assert_eq!(validate(&t), ValidationOutcome::Invalid { opener: TokenKind::LParen });
}

#[test]
fn open_template_literal_is_incomplete() {
    let t = toks(&[TokenKind::BackQuote, TokenKind::Template]);
    assert_eq!(validate(&t), ValidationOutcome::Incomplete);
}

#[test]
fn closed_template_with_interpolation_is_valid() {
    // `` `a${b}` ``
    let t = toks(&[
        TokenKind::BackQuote,
        TokenKind::Template,
        TokenKind::DollarLBrace,
        TokenKind::Ident,
        TokenKind::RBrace,
        TokenKind::Template,
        TokenKind::BackQuote,
    ]);
    assert_eq!(validate(&t), ValidationOutcome::Valid);
}

#[test]
fn interpolation_opener_must_be_closed() {
    let t = toks(&[
        TokenKind::BackQuote,
        TokenKind::DollarLBrace,
        TokenKind::Ident,
        TokenKind::BackQuote,
    ]);
    assert_eq!(validate(&t), ValidationOutcome::Incomplete);
}

#[test]
fn nested_brackets_match_pairwise() {
    // `[({})]`
    let t = toks(&[
        TokenKind::LBracket,
        TokenKind::LParen,
        TokenKind::LBrace,
        TokenKind::RBrace,
        TokenKind::RParen,
        TokenKind::RBracket,
    ]);
    assert_eq!(validate(&t), ValidationOutcome::Valid);
    // `[(})]` — the `}` arrives while `(` is on top.
    let t2 = toks(&[
        TokenKind::LBracket,
        TokenKind::LParen,
        TokenKind::RBrace,
    ]);
    assert_eq!(validate(&t2), ValidationOutcome::Invalid { opener: TokenKind::LParen });
}
