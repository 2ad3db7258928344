use repl_core::highlight::{classify_token, colorize, highlight, ColorClass};
use repl_core::token::{Token, TokenKind};

fn tok(kind: TokenKind, start: usize, end: usize) -> Token {
    Token { kind, start, end }
}

#[test]
fn numbers_color_yellow() {
    let line = "1+1";
    let tokens = vec![
        tok(TokenKind::Num, 0, 1),
        tok(TokenKind::Other, 1, 2),
        tok(TokenKind::Num, 2, 3),
    ];
    let out = highlight(line, &tokens, true);
    assert_eq!(out, "\u{1b}[33m1\u{1b}[0m+\u{1b}[33m1\u{1b}[0m");
}

#[test]
fn disabled_colors_leave_the_line_alone() {
    let line = "1+1";
    let tokens = vec![
        tok(TokenKind::Num, 0, 1),
        tok(TokenKind::Other, 1, 2),
        tok(TokenKind::Num, 2, 3),
    ];
    assert_eq!(highlight(line, &tokens, false), "1+1");
}

#[test]
fn strings_color_green_keywords_cyan() {
    let line = "let s = 'x'";
    let tokens = vec![
        tok(TokenKind::Keyword, 0, 3),
        tok(TokenKind::Ident, 4, 5),
        tok(TokenKind::Other, 6, 7),
        tok(TokenKind::Str, 8, 11),
    ];
    let out = highlight(line, &tokens, true);
    assert_eq!(out, "\u{1b}[36mlet\u{1b}[0m s = \u{1b}[32m'x'\u{1b}[0m");
}

#[test]
fn gaps_between_tokens_stay_unstyled() {
    let line = "  42  ";
    let tokens = vec![tok(TokenKind::Num, 2, 4)];
    assert_eq!(highlight(line, &tokens, true), "  \u{1b}[33m42\u{1b}[0m  ");
}

#[test]
fn identifier_special_cases() {
    assert_eq!(classify_token(TokenKind::Ident, "undefined"), ColorClass::Gray);
    assert_eq!(classify_token(TokenKind::Ident, "Infinity"), ColorClass::Yellow);
    assert_eq!(classify_token(TokenKind::Ident, "NaN"), ColorClass::Yellow);
    assert_eq!(classify_token(TokenKind::Ident, "async"), ColorClass::Cyan);
    assert_eq!(classify_token(TokenKind::Ident, "of"), ColorClass::Cyan);
    assert_eq!(classify_token(TokenKind::Ident, "foo"), ColorClass::Plain);
}

#[test]
fn literal_words_and_regex_and_comment_classes() {
    assert_eq!(classify_token(TokenKind::TrueWord, "true"), ColorClass::Yellow);
    assert_eq!(classify_token(TokenKind::FalseWord, "false"), ColorClass::Yellow);
    assert_eq!(classify_token(TokenKind::NullWord, "null"), ColorClass::Yellow);
    assert_eq!(classify_token(TokenKind::Regex, "/a/"), ColorClass::Red);
    assert_eq!(classify_token(TokenKind::Comment, "// hi"), ColorClass::Gray);
    assert_eq!(classify_token(TokenKind::Other, "+"), ColorClass::Plain);
}

#[test]
fn colorize_wraps_or_passes_through() {
    assert_eq!(colorize(ColorClass::Red, "x", true), "\u{1b}[31mx\u{1b}[0m");
    assert_eq!(colorize(ColorClass::Gray, "x", true), "\u{1b}[38;5;8mx\u{1b}[0m");
    assert_eq!(colorize(ColorClass::Plain, "x", true), "x");
    assert_eq!(colorize(ColorClass::Red, "x", false), "x");
}

#[test]
fn highlighting_is_deterministic() {
    let line = "const undefined_ish = undefined // dim";
    let tokens = vec![
        tok(TokenKind::Keyword, 0, 5),
        tok(TokenKind::Ident, 6, 19),
        tok(TokenKind::Other, 20, 21),
        tok(TokenKind::Ident, 22, 31),
        tok(TokenKind::Comment, 32, 38),
    ];
    let a = highlight(line, &tokens, true);
    let b = highlight(line, &tokens, true);
    assert_eq!(a, b);
    // Same inputs built independently give byte-identical output too.
    let tokens2 = vec![
        tok(TokenKind::Keyword, 0, 5),
        tok(TokenKind::Ident, 6, 19),
        tok(TokenKind::Other, 20, 21),
        tok(TokenKind::Ident, 22, 31),
        tok(TokenKind::Comment, 32, 38),
    ];
    let c = highlight(&String::from(line), &tokens2, true);
    assert_eq!(a, c);
}
