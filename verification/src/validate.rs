//! Multi-line input classification, driven by the lexed tokens: a stack over
//! opening brackets and template interpolation openers, plus a toggle on
//! backticks. A closer that does not match the stack top is invalid; a closer
//! on an empty stack is deliberately deferred to the engine's own parser and
//! reported valid; anything left open at the end of the buffer means the
//! editor should keep accepting lines.

use vstd::prelude::*;

use crate::token::{is_closer, is_opener, kinds_of, matches_pair, Token, TokenKind};

verus! {

/// Verdict on a buffer of input.
#[derive(Clone, Copy, PartialEq, Eq, Structural, Debug)]
pub enum ValidationOutcome {
    /// Balanced, or a dangling closer deferred to the engine's parser.
    Valid,
    /// A closer arrived while `opener` was on top of the stack and does not
    /// match it.
    Invalid { opener: TokenKind },
    /// Something is still open: keep accepting lines.
    Incomplete,
}

/// State of the bracket machine: either still consuming tokens, or stopped
/// with an early verdict.
pub enum MachineState {
    Going { stack: Seq<TokenKind>, in_template: bool },
    Stopped { verdict: ValidationOutcome },
}

/// One step of the bracket machine on token kind `k`.
pub open spec fn step(stack: Seq<TokenKind>, in_template: bool, k: TokenKind) -> MachineState {
    if k == TokenKind::BackQuote {
        MachineState::Going { stack, in_template: !in_template }
    } else if is_opener(k) {
        MachineState::Going { stack: stack.push(k), in_template }
    } else if is_closer(k) {
        if stack.len() == 0 {
            // A dangling closer: the engine's parser gives the better message.
            MachineState::Stopped { verdict: ValidationOutcome::Valid }
        } else if matches_pair(stack.last(), k) {
            MachineState::Going { stack: stack.drop_last(), in_template }
        } else {
            MachineState::Stopped {
                verdict: ValidationOutcome::Invalid { opener: stack.last() },
            }
        }
    } else {
        MachineState::Going { stack, in_template }
    }
}

/// The machine run over a whole kind sequence from a given state.
pub open spec fn run_from(ks: Seq<TokenKind>, stack: Seq<TokenKind>, in_template: bool) -> MachineState
    decreases ks.len(),
{
    if ks.len() == 0 {
        MachineState::Going { stack, in_template }
    } else {
        match step(stack, in_template, ks[0]) {
            MachineState::Going { stack: s2, in_template: t2 } => run_from(ks.skip(1), s2, t2),
            MachineState::Stopped { verdict } => MachineState::Stopped { verdict },
        }
    }
}

/// Verdict at the end of the buffer.
pub open spec fn finish(m: MachineState) -> ValidationOutcome {
    match m {
        MachineState::Going { stack, in_template } => {
            if stack.len() > 0 || in_template {
                ValidationOutcome::Incomplete
            } else {
                ValidationOutcome::Valid
            }
        },
        MachineState::Stopped { verdict } => verdict,
    }
}

/// What validation answers on a buffer whose lexed kinds are `ks`.
pub open spec fn spec_validate(ks: Seq<TokenKind>) -> ValidationOutcome {
    finish(run_from(ks, Seq::empty(), false))
}

/// Classify a buffer from its lexed tokens.
pub fn validate(tokens: &Vec<Token>) -> (r: ValidationOutcome)
    ensures
        r == spec_validate(kinds_of(tokens@)),
{
    let ghost ks = kinds_of(tokens@);
    let mut stack: Vec<TokenKind> = Vec::new();
    let mut in_template = false;
    let mut i: usize = 0;
    proof {
        assert(ks.skip(0) =~= ks);
    }
    while i < tokens.len()
        invariant
            i <= tokens.len(),
            ks == kinds_of(tokens@),
            run_from(ks, Seq::empty(), false) == run_from(
                ks.skip(i as int),
                stack@,
                in_template,
            ),
        decreases tokens.len() - i,
    {
        let k = tokens[i].kind;
        proof {
            assert(ks.skip(i as int).len() > 0);
            assert(ks.skip(i as int)[0] == ks[i as int]);
            assert(ks[i as int] == k);
            assert(ks.skip(i as int).skip(1) =~= ks.skip(i as int + 1));
        }
        match k {
            TokenKind::BackQuote => {
                in_template = !in_template;
            },
            TokenKind::LParen | TokenKind::LBracket | TokenKind::LBrace
                | TokenKind::DollarLBrace => {
                stack.push(k);
            },
            TokenKind::RParen | TokenKind::RBracket | TokenKind::RBrace => {
                if stack.len() == 0 {
                    return ValidationOutcome::Valid;
                }
                let ghost pre = stack@;
                let top = stack.pop().unwrap();
                proof {
                    assert(top == pre.last());
                    assert(stack@ =~= pre.drop_last());
                }
                let matched = match (top, k) {
                    (TokenKind::LParen, TokenKind::RParen) => true,
                    (TokenKind::LBracket, TokenKind::RBracket) => true,
                    (TokenKind::LBrace, TokenKind::RBrace) => true,
                    (TokenKind::DollarLBrace, TokenKind::RBrace) => true,
                    _ => false,
                };
                proof {
                    assert(matched == matches_pair(top, k));
                }
                if !matched {
                    return ValidationOutcome::Invalid { opener: top };
                }
            },
            _ => {},
        }
        i = i + 1;
    }
    if stack.len() > 0 || in_template {
        ValidationOutcome::Incomplete
    } else {
        ValidationOutcome::Valid
    }
}

/// Splitting a run at a sequence boundary: running `a + b` first runs `a`,
/// and goes on over `b` from wherever that left the machine.
pub proof fn lemma_run_concat(a: Seq<TokenKind>, b: Seq<TokenKind>, stack: Seq<TokenKind>, t: bool)
    ensures
        run_from(a + b, stack, t) == (match run_from(a, stack, t) {
            MachineState::Going { stack: s2, in_template: t2 } => run_from(b, s2, t2),
            MachineState::Stopped { verdict } => MachineState::Stopped { verdict },
        }),
    decreases a.len(),
{
    if a.len() == 0 {
        assert(a + b =~= b);
    } else {
        assert((a + b)[0] == a[0]);
        assert((a + b).skip(1) =~= a.skip(1) + b);
        match step(stack, t, a[0]) {
            MachineState::Going { stack: s2, in_template: t2 } => {
                lemma_run_concat(a.skip(1), b, s2, t2);
            },
            MachineState::Stopped { verdict } => {},
        }
    }
}

/// A run that ends in `Going` never popped below its starting stack, so the
/// same tokens behave the same over any deeper stack and any template flag:
/// the extra stack entries come through untouched, and the template flag is
/// toggled by the same backticks.
pub proof fn lemma_run_frame(
    b: Seq<TokenKind>,
    s: Seq<TokenKind>,
    t: bool,
    s2: Seq<TokenKind>,
    t2: bool,
    pre: Seq<TokenKind>,
    t0: bool,
)
    requires
        run_from(b, s, t) == (MachineState::Going { stack: s2, in_template: t2 }),
    ensures
        run_from(b, pre + s, t0) == (MachineState::Going {
            stack: pre + s2,
            in_template: if t0 == t {
                t2
            } else {
                !t2
            },
        }),
    decreases b.len(),
{
    if b.len() == 0 {
        assert(s2 == s && t2 == t);
    } else {
        let k = b[0];
        if k == TokenKind::BackQuote {
            lemma_run_frame(b.skip(1), s, !t, s2, t2, pre, !t0);
        } else if is_opener(k) {
            assert((pre + s).push(k) =~= pre + s.push(k));
            lemma_run_frame(b.skip(1), s.push(k), t, s2, t2, pre, t0);
        } else if is_closer(k) {
            // The run from `s` went on, so the stack was not empty and the
            // closer matched its top.
            assert(s.len() > 0);
            assert((pre + s).last() == s.last());
            assert((pre + s).len() > 0);
            assert((pre + s).drop_last() =~= pre + s.drop_last());
            lemma_run_frame(b.skip(1), s.drop_last(), t, s2, t2, pre, t0);
        } else {
            lemma_run_frame(b.skip(1), s, t, s2, t2, pre, t0);
        }
    }
}

/// A one-token run is exactly one step: if the step stops, the run stops with
/// the same verdict; if it goes on, there is nothing left to consume.
pub proof fn lemma_run_single(k: TokenKind, stack: Seq<TokenKind>, t: bool)
    ensures
        run_from(seq![k], stack, t) == step(stack, t, k),
{
    assert(seq![k][0] == k);
    assert(seq![k].skip(1) =~= Seq::<TokenKind>::empty());
    match step(stack, t, k) {
        MachineState::Going { stack: s2, in_template: t2 } => {
            assert(run_from(Seq::<TokenKind>::empty(), s2, t2) == (MachineState::Going {
                stack: s2,
                in_template: t2,
            }));
        },
        MachineState::Stopped { verdict } => {},
    }
}

/// Input whose tokens the bracket machine consumes completely, ending with an
/// empty stack and a closed template: brackets and templates balance. The
/// lemmas below build such sequences and state what validation answers.
pub open spec fn completes_clean(ks: Seq<TokenKind>) -> bool {
    run_from(ks, Seq::empty(), false) == (MachineState::Going {
        stack: Seq::<TokenKind>::empty(),
        in_template: false,
    })
}

/// Balanced input validates as `Valid`.
pub proof fn lemma_balanced_valid(ks: Seq<TokenKind>)
    requires
        completes_clean(ks),
    ensures
        spec_validate(ks) == ValidationOutcome::Valid,
{
}

/// The empty buffer balances.
pub proof fn lemma_clean_empty()
    ensures
        completes_clean(Seq::<TokenKind>::empty()),
{
}

/// A token that is no bracket and no backtick balances on its own.
pub proof fn lemma_clean_atom(k: TokenKind)
    requires
        !is_opener(k),
        !is_closer(k),
        k != TokenKind::BackQuote,
    ensures
        completes_clean(seq![k]),
{
    lemma_run_single(k, Seq::empty(), false);
}

/// Balanced next to balanced is balanced.
pub proof fn lemma_clean_concat(a: Seq<TokenKind>, b: Seq<TokenKind>)
    requires
        completes_clean(a),
        completes_clean(b),
    ensures
        completes_clean(a + b),
{
    lemma_run_concat(a, b, Seq::empty(), false);
}

/// Balanced input wrapped in a matching bracket pair is balanced.
pub proof fn lemma_clean_wrap(o: TokenKind, a: Seq<TokenKind>, c: TokenKind)
    requires
        completes_clean(a),
        is_opener(o),
        matches_pair(o, c),
    ensures
        completes_clean(seq![o] + a + seq![c]),
{
    let empty = Seq::<TokenKind>::empty();
    assert(is_closer(c));
    // After the opener the stack is [o]; `a` leaves it alone; `c` pops it.
    lemma_run_single(o, empty, false);
    assert(empty.push(o) =~= seq![o]);
    assert(run_from(seq![o], empty, false) == (MachineState::Going {
        stack: seq![o],
        in_template: false,
    }));
    lemma_run_frame(a, empty, false, empty, false, seq![o], false);
    assert(seq![o] + empty =~= seq![o]);
    assert(run_from(a, seq![o], false) == (MachineState::Going {
        stack: seq![o],
        in_template: false,
    }));
    lemma_run_single(c, seq![o], false);
    assert(seq![o].last() == o);
    assert(seq![o].drop_last() =~= empty);
    assert(run_from(seq![c], seq![o], false) == (MachineState::Going {
        stack: empty,
        in_template: false,
    }));
    lemma_run_concat(a, seq![c], seq![o], false);
    assert(run_from(a + seq![c], seq![o], false) == (MachineState::Going {
        stack: empty,
        in_template: false,
    }));
    let w = seq![o] + a + seq![c];
    assert(w =~= seq![o] + (a + seq![c]));
    lemma_run_concat(seq![o], a + seq![c], empty, false);
}

/// Balanced input wrapped in backticks is a closed template literal, and
/// balances.
pub proof fn lemma_clean_template(a: Seq<TokenKind>)
    requires
        completes_clean(a),
    ensures
        completes_clean(seq![TokenKind::BackQuote] + a + seq![TokenKind::BackQuote]),
{
    let empty = Seq::<TokenKind>::empty();
    let bq = seq![TokenKind::BackQuote];
    lemma_run_single(TokenKind::BackQuote, empty, false);
    assert(run_from(bq, empty, false) == (MachineState::Going {
        stack: empty,
        in_template: true,
    }));
    lemma_run_frame(a, empty, false, empty, false, empty, true);
    assert(empty + empty =~= empty);
    assert(run_from(a, empty, true) == (MachineState::Going { stack: empty, in_template: true }));
    lemma_run_single(TokenKind::BackQuote, empty, true);
    assert(run_from(bq, empty, true) == (MachineState::Going {
        stack: empty,
        in_template: false,
    }));
    lemma_run_concat(a, bq, empty, true);
    assert(run_from(a + bq, empty, true) == (MachineState::Going {
        stack: empty,
        in_template: false,
    }));
    let w = bq + a + bq;
    assert(w =~= bq + (a + bq));
    lemma_run_concat(bq, a + bq, empty, false);
}

/// An opener that is never closed makes the buffer incomplete, whatever
/// balanced input stands before and after it.
pub proof fn lemma_unclosed_opener_incomplete(a: Seq<TokenKind>, o: TokenKind, b: Seq<TokenKind>)
    requires
        completes_clean(a),
        is_opener(o),
        completes_clean(b),
    ensures
        spec_validate(a + seq![o] + b) == ValidationOutcome::Incomplete,
{
    let empty = Seq::<TokenKind>::empty();
    assert(a + seq![o] + b =~= a + (seq![o] + b));
    lemma_run_concat(a, seq![o] + b, empty, false);
    lemma_run_concat(seq![o], b, empty, false);
    lemma_run_single(o, empty, false);
    assert(empty.push(o) =~= seq![o]);
    lemma_run_frame(b, empty, false, empty, false, seq![o], false);
    assert(seq![o] + empty =~= seq![o]);
    assert(run_from(seq![o] + b, empty, false) == (MachineState::Going {
        stack: seq![o],
        in_template: false,
    }));
}

/// A backtick that never closes leaves a template open: incomplete, whatever
/// balanced input stands before and after it.
pub proof fn lemma_open_template_incomplete(a: Seq<TokenKind>, b: Seq<TokenKind>)
    requires
        completes_clean(a),
        completes_clean(b),
    ensures
        spec_validate(a + seq![TokenKind::BackQuote] + b) == ValidationOutcome::Incomplete,
{
    let empty = Seq::<TokenKind>::empty();
    let bq = seq![TokenKind::BackQuote];
    assert(a + bq + b =~= a + (bq + b));
    lemma_run_concat(a, bq + b, empty, false);
    lemma_run_concat(bq, b, empty, false);
    lemma_run_single(TokenKind::BackQuote, empty, false);
    lemma_run_frame(b, empty, false, empty, false, empty, true);
    assert(empty + empty =~= empty);
    assert(run_from(bq + b, empty, false) == (MachineState::Going {
        stack: empty,
        in_template: true,
    }));
}

/// A closer that does not match the innermost open bracket is invalid, and
/// the verdict names that opener — whatever balanced input stands around it
/// and whatever follows.
pub proof fn lemma_mismatched_closer_invalid(
    a: Seq<TokenKind>,
    o: TokenKind,
    b: Seq<TokenKind>,
    c: TokenKind,
    rest: Seq<TokenKind>,
)
    requires
        completes_clean(a),
        is_opener(o),
        completes_clean(b),
        is_closer(c),
        !matches_pair(o, c),
    ensures
        spec_validate(a + seq![o] + b + seq![c] + rest) == (ValidationOutcome::Invalid {
            opener: o,
        }),
{
    let empty = Seq::<TokenKind>::empty();
    assert(a + seq![o] + b + seq![c] + rest =~= a + (seq![o] + (b + (seq![c] + rest))));
    lemma_run_concat(a, seq![o] + (b + (seq![c] + rest)), empty, false);
    lemma_run_concat(seq![o], b + (seq![c] + rest), empty, false);
    lemma_run_single(o, empty, false);
    assert(empty.push(o) =~= seq![o]);
    lemma_run_concat(b, seq![c] + rest, seq![o], false);
    lemma_run_frame(b, empty, false, empty, false, seq![o], false);
    assert(seq![o] + empty =~= seq![o]);
    lemma_run_concat(seq![c], rest, seq![o], false);
    lemma_run_single(c, seq![o], false);
    assert(seq![o].last() == o);
}

/// A closer with nothing open is deferred to the engine's parser: the verdict
/// is `Valid` no matter what follows it.
pub proof fn lemma_dangling_closer_valid(a: Seq<TokenKind>, c: TokenKind, b: Seq<TokenKind>)
    requires
        completes_clean(a),
        is_closer(c),
    ensures
        spec_validate(a + seq![c] + b) == ValidationOutcome::Valid,
{
    let empty = Seq::<TokenKind>::empty();
    assert(a + seq![c] + b =~= a + (seq![c] + b));
    lemma_run_concat(a, seq![c] + b, empty, false);
    lemma_run_concat(seq![c], b, empty, false);
    lemma_run_single(c, empty, false);
}

} // verus!
