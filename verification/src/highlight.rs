//! Live coloring of the prompt line, driven by the lexed tokens. Each token's
//! span is replaced by a color-wrapped copy; text between spans stays as it
//! is. The mapping: strings, templates and backticks green; regexes red;
//! numeric, bigint, boolean and null literals yellow; keywords cyan;
//! `undefined` dimmed; `Infinity` and `NaN` like literals; `async` and `of`
//! like keywords; comments dimmed; everything else unstyled.

use vstd::prelude::*;

use crate::text::str_eq;
use crate::token::{tokens_wf, Token, TokenKind};

verus! {

/// How a token is colored.
#[derive(Clone, Copy, PartialEq, Eq, Structural, Debug)]
pub enum ColorClass {
    Green,
    Red,
    Yellow,
    Cyan,
    Gray,
    Plain,
}

/// The escape sequence that turns a color on.
pub open spec fn color_prefix(class: ColorClass) -> Seq<char> {
    match class {
        ColorClass::Green => "\u{1b}[32m"@,
        ColorClass::Red => "\u{1b}[31m"@,
        ColorClass::Yellow => "\u{1b}[33m"@,
        ColorClass::Cyan => "\u{1b}[36m"@,
        ColorClass::Gray => "\u{1b}[38;5;8m"@,
        ColorClass::Plain => Seq::empty(),
    }
}

/// The escape sequence that turns color off again.
pub open spec fn color_reset() -> Seq<char> {
    "\u{1b}[0m"@
}

/// Text wrapped in a color, or left alone when color is disabled or the class
/// is unstyled.
pub open spec fn spec_colorize(class: ColorClass, text: Seq<char>, enabled: bool) -> Seq<char> {
    if !enabled || class == ColorClass::Plain {
        text
    } else {
        color_prefix(class) + text + color_reset()
    }
}

/// Wrap `text` in the escape codes of `class`.
pub fn colorize(class: ColorClass, text: &str, enabled: bool) -> (out: String)
    ensures
        out@ == spec_colorize(class, text@, enabled),
{
    if !enabled {
        return String::from_str(text);
    }
    let prefix: &'static str = match class {
        ColorClass::Green => "\u{1b}[32m",
        ColorClass::Red => "\u{1b}[31m",
        ColorClass::Yellow => "\u{1b}[33m",
        ColorClass::Cyan => "\u{1b}[36m",
        ColorClass::Gray => "\u{1b}[38;5;8m",
        ColorClass::Plain => {
            return String::from_str(text);
        },
    };
    let mut out = String::from_str(prefix);
    out.append(text);
    out.append("\u{1b}[0m");
    out
}

/// The color of one token. Identifiers are told apart by their text.
pub open spec fn spec_token_class(kind: TokenKind, text: Seq<char>) -> ColorClass {
    match kind {
        TokenKind::Str | TokenKind::Template | TokenKind::BackQuote => ColorClass::Green,
        TokenKind::Regex => ColorClass::Red,
        TokenKind::Num | TokenKind::BigInt => ColorClass::Yellow,
        TokenKind::TrueWord | TokenKind::FalseWord | TokenKind::NullWord => ColorClass::Yellow,
        TokenKind::Keyword => ColorClass::Cyan,
        TokenKind::Ident => {
            if text == "undefined"@ {
                ColorClass::Gray
            } else if text == "Infinity"@ || text == "NaN"@ {
                ColorClass::Yellow
            } else if text == "async"@ || text == "of"@ {
                ColorClass::Cyan
            } else {
                ColorClass::Plain
            }
        },
        TokenKind::Comment => ColorClass::Gray,
        _ => ColorClass::Plain,
    }
}

/// Classify one token from its kind and its text.
pub fn classify_token(kind: TokenKind, text: &str) -> (c: ColorClass)
    ensures
        c == spec_token_class(kind, text@),
{
    match kind {
        TokenKind::Str | TokenKind::Template | TokenKind::BackQuote => ColorClass::Green,
        TokenKind::Regex => ColorClass::Red,
        TokenKind::Num | TokenKind::BigInt => ColorClass::Yellow,
        TokenKind::TrueWord | TokenKind::FalseWord | TokenKind::NullWord => ColorClass::Yellow,
        TokenKind::Keyword => ColorClass::Cyan,
        TokenKind::Ident => {
            if str_eq(text, "undefined") {
                ColorClass::Gray
            } else if str_eq(text, "Infinity") || str_eq(text, "NaN") {
                ColorClass::Yellow
            } else if str_eq(text, "async") || str_eq(text, "of") {
                ColorClass::Cyan
            } else {
                ColorClass::Plain
            }
        },
        TokenKind::Comment => ColorClass::Gray,
        _ => ColorClass::Plain,
    }
}

/// The text a token's span covers.
pub open spec fn token_text(line: Seq<char>, t: Token) -> Seq<char> {
    line.subrange(t.start as int, t.end as int)
}

/// The colored line from position `pos` on, given the tokens still to come.
pub open spec fn spec_highlight_from(
    line: Seq<char>,
    ts: Seq<Token>,
    enabled: bool,
    pos: int,
) -> Seq<char>
    decreases ts.len(),
{
    if ts.len() == 0 {
        line.subrange(pos, line.len() as int)
    } else {
        line.subrange(pos, ts[0].start as int) + spec_colorize(
            spec_token_class(ts[0].kind, token_text(line, ts[0])),
            token_text(line, ts[0]),
            enabled,
        ) + spec_highlight_from(line, ts.skip(1), enabled, ts[0].end as int)
    }
}

/// The whole colored line.
pub open spec fn spec_highlight(line: Seq<char>, ts: Seq<Token>, enabled: bool) -> Seq<char> {
    spec_highlight_from(line, ts, enabled, 0)
}

/// Color a line from its lexed tokens. Coloring grows earlier spans, so the
/// output is rebuilt left to right rather than patched in place.
#[verifier::rlimit(30)]
pub fn highlight(line: &str, tokens: &Vec<Token>, enabled: bool) -> (out: String)
    requires
        tokens_wf(tokens@, line@.len() as int),
    ensures
        out@ == spec_highlight(line@, tokens@, enabled),
{
    let line_chars = line.unicode_len();
    let mut out = String::new();
    let mut pos: usize = 0;
    let mut i: usize = 0;
    proof {
        assert(tokens@.skip(0) =~= tokens@);
    }
    while i < tokens.len()
        invariant
            tokens_wf(tokens@, line@.len() as int),
            line_chars == line@.len(),
            i <= tokens.len(),
            pos <= line@.len(),
            i < tokens.len() ==> pos <= tokens@[i as int].start,
            spec_highlight(line@, tokens@, enabled) == out@ + spec_highlight_from(
                line@,
                tokens@.skip(i as int),
                enabled,
                pos as int,
            ),
        decreases tokens.len() - i,
    {
        let t = tokens[i];
        let gap = line.substring_char(pos, t.start);
        let text = line.substring_char(t.start, t.end);
        let colored = colorize(classify_token(t.kind, text), text, enabled);
        out.append(gap);
        out.append(colored.as_str());
        proof {
            let rest = tokens@.skip(i as int);
            assert(rest[0] == tokens@[i as int]);
            assert(rest.skip(1) =~= tokens@.skip(i as int + 1));
            if i + 1 < tokens.len() {
                assert(tokens@[i as int + 1].start >= tokens@[i as int].end);
            }
        }
        pos = t.end;
        i = i + 1;
    }
    let tail = line.substring_char(pos, line_chars);
    out.append(tail);
    proof {
        assert(tokens@.skip(tokens@.len() as int) =~= Seq::<Token>::empty());
    }
    out
}

/// Highlighting is a pure function of the line, the tokens and the color
/// setting: identical inputs give character-identical output.
pub proof fn lemma_highlight_deterministic(
    line1: Seq<char>,
    ts1: Seq<Token>,
    e1: bool,
    line2: Seq<char>,
    ts2: Seq<Token>,
    e2: bool,
)
    requires
        line1 == line2,
        ts1 == ts2,
        e1 == e2,
    ensures
        spec_highlight(line1, ts1, e1) == spec_highlight(line2, ts2, e2),
{
}

} // verus!
