//! Word extraction for completion: the contiguous run of non-boundary
//! characters touching the cursor. `.` is deliberately not a boundary, so a
//! property chain such as `a.b.c` is a single word.

use vstd::prelude::*;

verus! {

/// ASCII whitespace: space, tab, line feed, form feed, carriage return.
pub open spec fn spec_is_ascii_whitespace(c: char) -> bool {
    c == ' ' || c == '\t' || c == '\n' || c == '\u{c}' || c == '\r'
}

/// ASCII punctuation: the four printable non-alphanumeric ranges.
pub open spec fn spec_is_ascii_punctuation(c: char) -> bool {
    (0x21 <= c as u32 && c as u32 <= 0x2f) || (0x3a <= c as u32 && c as u32 <= 0x40) || (0x5b
        <= c as u32 && c as u32 <= 0x60) || (0x7b <= c as u32 && c as u32 <= 0x7e)
}

/// A character that separates words for completion purposes. `.` is not a
/// boundary, so a property access chain counts as one word.
pub open spec fn spec_is_word_boundary(c: char) -> bool {
    c != '.' && (spec_is_ascii_whitespace(c) || spec_is_ascii_punctuation(c))
}

pub fn is_word_boundary(c: char) -> (r: bool)
    ensures
        r == spec_is_word_boundary(c),
{
    if c == '.' {
        false
    } else {
        let u = c as u32;
        u == 0x20 || u == 0x09 || u == 0x0a || u == 0x0c || u == 0x0d || (0x21 <= u && u <= 0x2f)
            || (0x3a <= u && u <= 0x40) || (0x5b <= u && u <= 0x60) || (0x7b <= u && u <= 0x7e)
    }
}

/// Start of the run of non-boundary characters that ends at `pos`: the first
/// index from which every character before `pos` is a non-boundary.
pub open spec fn word_start(s: Seq<char>, pos: int) -> int
    decreases pos,
{
    if pos <= 0 {
        0
    } else if spec_is_word_boundary(s[pos - 1]) {
        pos
    } else {
        word_start(s, pos - 1)
    }
}

/// End of the run of non-boundary characters that starts at `pos`: the first
/// index at or after `pos` holding a boundary, or the end of the text.
pub open spec fn word_end(s: Seq<char>, pos: int) -> int
    decreases s.len() - pos,
{
    if pos >= s.len() {
        s.len() as int
    } else if spec_is_word_boundary(s[pos]) {
        pos
    } else {
        word_end(s, pos + 1)
    }
}

/// The word touching position `pos`: the maximal run of non-boundary
/// characters around it. Never starts or ends with a boundary character.
pub open spec fn spec_word_at(s: Seq<char>, pos: int) -> Seq<char> {
    s.subrange(word_start(s, pos), word_end(s, pos))
}

pub proof fn lemma_word_start_bounds(s: Seq<char>, pos: int)
    requires
        0 <= pos <= s.len(),
    ensures
        0 <= word_start(s, pos) <= pos,
    decreases pos,
{
    if pos <= 0 {
    } else if spec_is_word_boundary(s[pos - 1]) {
    } else {
        lemma_word_start_bounds(s, pos - 1);
    }
}

pub proof fn lemma_word_end_bounds(s: Seq<char>, pos: int)
    requires
        0 <= pos <= s.len(),
    ensures
        pos <= word_end(s, pos) <= s.len(),
    decreases s.len() - pos,
{
    if pos >= s.len() {
    } else if spec_is_word_boundary(s[pos]) {
    } else {
        lemma_word_end_bounds(s, pos + 1);
    }
}

/// The extracted word is the maximal run of non-boundary characters around
/// the cursor: no boundary inside it, and a boundary (or the line's edge) on
/// either side.
pub proof fn lemma_word_at_maximal(s: Seq<char>, pos: int)
    requires
        0 <= pos <= s.len(),
    ensures
        forall|j: int|
            word_start(s, pos) <= j < word_end(s, pos) ==> !spec_is_word_boundary(#[trigger] s[j]),
        word_start(s, pos) > 0 ==> spec_is_word_boundary(s[word_start(s, pos) - 1]),
        word_end(s, pos) < s.len() ==> spec_is_word_boundary(s[word_end(s, pos)]),
{
    lemma_word_start_bounds(s, pos);
    lemma_word_end_bounds(s, pos);
    lemma_word_start_run(s, pos);
    lemma_word_end_run(s, pos);
}

proof fn lemma_word_start_run(s: Seq<char>, pos: int)
    requires
        0 <= pos <= s.len(),
    ensures
        forall|j: int| word_start(s, pos) <= j < pos ==> !spec_is_word_boundary(#[trigger] s[j]),
        word_start(s, pos) > 0 ==> spec_is_word_boundary(s[word_start(s, pos) - 1]),
    decreases pos,
{
    if pos <= 0 {
    } else if spec_is_word_boundary(s[pos - 1]) {
    } else {
        lemma_word_start_run(s, pos - 1);
    }
}

proof fn lemma_word_end_run(s: Seq<char>, pos: int)
    requires
        0 <= pos <= s.len(),
    ensures
        forall|j: int| pos <= j < word_end(s, pos) ==> !spec_is_word_boundary(#[trigger] s[j]),
        word_end(s, pos) < s.len() ==> spec_is_word_boundary(s[word_end(s, pos)]),
    decreases s.len() - pos,
{
    if pos >= s.len() {
    } else if spec_is_word_boundary(s[pos]) {
    } else {
        lemma_word_end_run(s, pos + 1);
    }
}

/// The word under the cursor, as a slice of the line. The cursor position is
/// counted in characters.
pub fn get_expr_from_line_at_pos<'a>(line: &'a str, cursor_pos: usize) -> (word: &'a str)
    requires
        cursor_pos <= line@.len(),
    ensures
        word@ == spec_word_at(line@, cursor_pos as int),
{
    proof {
        lemma_word_start_bounds(line@, cursor_pos as int);
        lemma_word_end_bounds(line@, cursor_pos as int);
    }
    let line_chars = line.unicode_len();
    let mut start: usize = cursor_pos;
    while start > 0 && !is_word_boundary(line.get_char(start - 1))
        invariant
            start <= cursor_pos <= line@.len(),
            word_start(line@, cursor_pos as int) == word_start(line@, start as int),
        decreases start,
    {
        start = start - 1;
    }
    let mut end: usize = cursor_pos;
    while end < line_chars && !is_word_boundary(line.get_char(end))
        invariant
            cursor_pos <= end <= line@.len(),
            line_chars == line@.len(),
            word_end(line@, cursor_pos as int) == word_end(line@, end as int),
        decreases line@.len() - end,
    {
        end = end + 1;
    }
    line.substring_char(start, end)
}

/// Equality of two string slices, by their characters.
pub fn str_eq(a: &str, b: &str) -> (r: bool)
    ensures
        r == (a@ == b@),
{
    let sa = String::from_str(a);
    let sb = String::from_str(b);
    sa == sb
}

} // verus!
