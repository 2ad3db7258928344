//! The evaluation pipeline of one submitted line, and the protocol requests
//! the session issues. A line that looks like an object literal is first
//! wrapped in parentheses; if that evaluation throws, the unwrapped line is
//! retried once. The thrown value or the produced value is then recorded into
//! the context's error- or result-tracking binding, and a pretty-printed
//! string is fetched for display, prefixed with `Uncaught ` on an exception.

use vstd::prelude::*;

use crate::highlight::{spec_colorize, colorize, ColorClass};

verus! {

/// A white space character, as line trimming sees it.
pub open spec fn spec_is_trim_ws(c: char) -> bool {
    ||| c == ' '
    ||| c == '\t'
    ||| c == '\n'
    ||| c == '\u{b}'
    ||| c == '\u{c}'
    ||| c == '\r'
    ||| c == '\u{85}'
    ||| c == '\u{a0}'
    ||| c == '\u{1680}'
    ||| (0x2000 <= c as u32 && c as u32 <= 0x200a)
    ||| c == '\u{2028}'
    ||| c == '\u{2029}'
    ||| c == '\u{202f}'
    ||| c == '\u{205f}'
    ||| c == '\u{3000}'
}

fn is_trim_ws(c: char) -> (r: bool)
    ensures
        r == spec_is_trim_ws(c),
{
    let u = c as u32;
    u == 0x20 || u == 0x09 || u == 0x0a || u == 0x0b || u == 0x0c || u == 0x0d || u == 0x85 || u
        == 0xa0 || u == 0x1680 || (0x2000 <= u && u <= 0x200a) || u == 0x2028 || u == 0x2029 || u
        == 0x202f || u == 0x205f || u == 0x3000
}

/// First index at or after `i` holding a non-whitespace character, or the end.
pub open spec fn skip_ws_from(s: Seq<char>, i: int) -> int
    decreases s.len() - i,
    when 0 <= i <= s.len()
{
    if i >= s.len() {
        i
    } else if spec_is_trim_ws(s[i]) {
        skip_ws_from(s, i + 1)
    } else {
        i
    }
}

/// Index just after the last non-whitespace character before `i`, or zero.
pub open spec fn trim_end_idx(s: Seq<char>, i: int) -> int
    decreases i,
    when i >= 0
{
    if i <= 0 {
        0
    } else if spec_is_trim_ws(s[i - 1]) {
        trim_end_idx(s, i - 1)
    } else {
        i
    }
}

pub proof fn lemma_skip_ws_bounds(s: Seq<char>, i: int)
    requires
        0 <= i <= s.len(),
    ensures
        i <= skip_ws_from(s, i) <= s.len(),
    decreases s.len() - i,
{
    if i >= s.len() {
    } else if spec_is_trim_ws(s[i]) {
        lemma_skip_ws_bounds(s, i + 1);
    }
}

pub proof fn lemma_trim_end_bounds(s: Seq<char>, i: int)
    requires
        0 <= i,
    ensures
        0 <= trim_end_idx(s, i) <= i,
    decreases i,
{
    if i <= 0 {
    } else if spec_is_trim_ws(s[i - 1]) {
        lemma_trim_end_bounds(s, i - 1);
    }
}

/// Whether a line is wrapped in parentheses before evaluation: it reads like
/// an object literal (the trimmed line starts with `{`) and is not explicitly
/// a statement (the trimmed line does not end with `;`). Interactive consoles
/// prefer the literal reading over the block statement.
pub open spec fn spec_should_wrap(s: Seq<char>) -> bool {
    let f = skip_ws_from(s, 0);
    let e = trim_end_idx(s, s.len() as int);
    f < s.len() && s[f] == '{' && !(e > 0 && s[e - 1] == ';')
}

/// The text actually submitted for the first evaluation attempt.
pub open spec fn spec_wrapped_text(s: Seq<char>) -> Seq<char> {
    if spec_should_wrap(s) {
        "("@ + s + ")"@
    } else {
        s
    }
}

/// Wrap an object-literal-looking line in parentheses. Returns the text to
/// evaluate first and whether it differs from the line.
pub fn wrap_line(line: &str) -> (r: (String, bool))
    ensures
        r.1 == spec_should_wrap(line@),
        r.0@ == spec_wrapped_text(line@),
{
    let n = line.unicode_len();
    proof {
        lemma_skip_ws_bounds(line@, 0);
        lemma_trim_end_bounds(line@, line@.len() as int);
    }
    let mut f: usize = 0;
    while f < n && is_trim_ws(line.get_char(f))
        invariant
            f <= n,
            n == line@.len(),
            skip_ws_from(line@, 0) == skip_ws_from(line@, f as int),
        decreases n - f,
    {
        f = f + 1;
    }
    let mut e: usize = n;
    while e > 0 && is_trim_ws(line.get_char(e - 1))
        invariant
            e <= n,
            n == line@.len(),
            trim_end_idx(line@, n as int) == trim_end_idx(line@, e as int),
        decreases e,
    {
        e = e - 1;
    }
    let should = f < n && line.get_char(f) == '{' && !(e > 0 && line.get_char(e - 1) == ';');
    if should {
        let mut w = String::from_str("(");
        w.append(line);
        w.append(")");
        (w, true)
    } else {
        (String::from_str(line), false)
    }
}

/// The decimal digits of `n`, most significant first.
pub open spec fn spec_dec_digit(d: int) -> char {
    if d == 0 {
        '0'
    } else if d == 1 {
        '1'
    } else if d == 2 {
        '2'
    } else if d == 3 {
        '3'
    } else if d == 4 {
        '4'
    } else if d == 5 {
        '5'
    } else if d == 6 {
        '6'
    } else if d == 7 {
        '7'
    } else if d == 8 {
        '8'
    } else {
        '9'
    }
}

/// Decimal representation of a number, without sign or padding.
pub open spec fn spec_dec(n: int) -> Seq<char>
    decreases n,
    when n >= 0
{
    if n < 10 {
        seq![spec_dec_digit(n)]
    } else {
        spec_dec(n / 10).push(spec_dec_digit(n % 10))
    }
}

fn digit_str(d: u64) -> (s: &'static str)
    requires
        d < 10,
    ensures
        s@ =~= seq![spec_dec_digit(d as int)],
{
    proof {
        reveal_strlit("0");
        reveal_strlit("1");
        reveal_strlit("2");
        reveal_strlit("3");
        reveal_strlit("4");
        reveal_strlit("5");
        reveal_strlit("6");
        reveal_strlit("7");
        reveal_strlit("8");
        reveal_strlit("9");
    }
    match d {
        0 => "0",
        1 => "1",
        2 => "2",
        3 => "3",
        4 => "4",
        5 => "5",
        6 => "6",
        7 => "7",
        8 => "8",
        _ => "9",
    }
}

/// Format a number in decimal.
pub fn dec_string(n: u64) -> (s: String)
    ensures
        s@ == spec_dec(n as int),
    decreases n,
{
    if n < 10 {
        return String::from_str(digit_str(n));
    }
    let mut s = dec_string(n / 10);
    s.append(digit_str(n % 10));
    proof {
        assert(s@ =~= spec_dec(n as int / 10).push(spec_dec_digit(n as int % 10)));
    }
    s
}

/// The rendering of a parse diagnostic: the red `parse error` label, the
/// message, and the source position.
pub open spec fn spec_parse_error(msg: Seq<char>, line: int, col: int, colors: bool) -> Seq<char> {
    spec_colorize(ColorClass::Red, "parse error"@, colors) + ": "@ + msg + " at "@ + spec_dec(line)
        + ":"@ + spec_dec(col)
}

/// Render a parse diagnostic as `parse error: <message> at <line>:<col>`.
pub fn parse_error_text(msg: &str, line: u64, col: u64, colors: bool) -> (out: String)
    ensures
        out@ == spec_parse_error(msg@, line as int, col as int, colors),
{
    let mut out = colorize(ColorClass::Red, "parse error", colors);
    out.append(": ");
    out.append(msg);
    out.append(" at ");
    let l = dec_string(line);
    out.append(l.as_str());
    out.append(":");
    let c = dec_string(col);
    out.append(c.as_str());
    out
}

/// The strict-mode guard prefixed to every evaluated script.
pub open spec fn strict_guard() -> Seq<char> {
    "'use strict'; void 0;\n"@
}

/// The prefix of a displayed exception.
pub open spec fn uncaught_prefix() -> Seq<char> {
    "Uncaught "@
}

/// The displayed output: the pretty-printed value, prefixed with `Uncaught `
/// when the evaluation threw.
pub open spec fn spec_output_text(text: Seq<char>, exception: bool) -> Seq<char> {
    if exception {
        uncaught_prefix() + text
    } else {
        text
    }
}

/// Build the display string for an evaluation result.
pub fn output_text(text: &str, exception: bool) -> (out: String)
    ensures
        out@ == spec_output_text(text@, exception),
{
    if exception {
        let mut out = String::from_str("Uncaught ");
        out.append(text);
        out
    } else {
        String::from_str(text)
    }
}

/// Parameters of an evaluate request.
pub struct EvaluateParams {
    /// The script to evaluate.
    pub expression: String,
    /// The execution context evaluated against.
    pub context_id: u64,
    /// Permit redeclaring block-scoped bindings across evaluations.
    pub repl_mode: bool,
    /// Abort on any side effect: used by the completion probe.
    pub throw_on_side_effect: bool,
    /// Time limit in milliseconds, for the completion probe.
    pub timeout_ms: Option<u64>,
}

/// One request to the execution context's instrumentation protocol. The host
/// serializes it; the values here are everything the session decides.
pub enum ProtocolRequest {
    /// Evaluate a script.
    Evaluate { params: EvaluateParams },
    /// Call a context-side function on a previously returned remote value;
    /// the host supplies that value as the call argument.
    CallFunctionOn { function_declaration: &'static str, context_id: u64 },
    /// List the own properties of a remote object the host holds.
    GetProperties,
    /// List the global lexical scope names.
    GlobalLexicalScopeNames { context_id: u64 },
}

/// The protocol method of each request.
pub open spec fn spec_method_name(r: ProtocolRequest) -> Seq<char> {
    match r {
        ProtocolRequest::Evaluate { .. } => "Runtime.evaluate"@,
        ProtocolRequest::CallFunctionOn { .. } => "Runtime.callFunctionOn"@,
        ProtocolRequest::GetProperties => "Runtime.getProperties"@,
        ProtocolRequest::GlobalLexicalScopeNames { .. } => "Runtime.globalLexicalScopeNames"@,
    }
}

/// Name the protocol method of a request.
pub fn method_name(r: &ProtocolRequest) -> (m: &'static str)
    ensures
        m@ == spec_method_name(*r),
{
    match r {
        ProtocolRequest::Evaluate { .. } => "Runtime.evaluate",
        ProtocolRequest::CallFunctionOn { .. } => "Runtime.callFunctionOn",
        ProtocolRequest::GetProperties => "Runtime.getProperties",
        ProtocolRequest::GlobalLexicalScopeNames { .. } => "Runtime.globalLexicalScopeNames",
    }
}

/// The evaluate request of the main pipeline: repl mode on, no side-effect
/// guard, no timeout.
pub fn repl_evaluate_request(expression: String, context_id: u64) -> (r: ProtocolRequest)
    ensures
        r matches ProtocolRequest::Evaluate { params } && params.expression == expression
            && params.context_id == context_id && params.repl_mode && !params.throw_on_side_effect
            && params.timeout_ms is None,
{
    ProtocolRequest::Evaluate {
        params: EvaluateParams {
            expression,
            context_id,
            repl_mode: true,
            throw_on_side_effect: false,
            timeout_ms: None,
        },
    }
}

/// The completion probe: evaluate side-effect-free with a 200 ms limit, so
/// listing `obj.` properties can never mutate the program under inspection.
pub fn side_effect_probe_request(expression: String, context_id: u64) -> (r: ProtocolRequest)
    ensures
        r matches ProtocolRequest::Evaluate { params } && params.expression == expression
            && params.context_id == context_id && !params.repl_mode
            && params.throw_on_side_effect && params.timeout_ms == Some(200u64),
{
    ProtocolRequest::Evaluate {
        params: EvaluateParams {
            expression,
            context_id,
            repl_mode: false,
            throw_on_side_effect: true,
            timeout_ms: Some(200),
        },
    }
}

/// The expression probing the host's closed flag after each evaluation.
pub open spec fn closing_probe_expression() -> Seq<char> {
    "(globalThis.closed)"@
}

/// The request that reads the host's closed flag.
pub fn closing_probe_request(context_id: u64) -> (r: ProtocolRequest)
    ensures
        r matches ProtocolRequest::Evaluate { params } && params.expression@
            == closing_probe_expression() && params.context_id == context_id && params.repl_mode
            && !params.throw_on_side_effect && params.timeout_ms is None,
{
    repl_evaluate_request(String::from_str("(globalThis.closed)"), context_id)
}

/// The context-side setter recording the last thrown error.
pub open spec fn set_error_declaration() -> Seq<char> {
    "function (object) { Deno[Deno.internal].lastThrownError = object; }"@
}

/// The context-side setter recording the last evaluation result.
pub open spec fn set_result_declaration() -> Seq<char> {
    "function (object) { Deno[Deno.internal].lastEvalResult = object; }"@
}

/// The context-side pretty printer for one value.
pub open spec fn inspect_declaration() -> Seq<char> {
    "function (object) { return Deno[Deno.internal].inspectArgs(['%o', object], { colors: !Deno.noColor }); }"@
}

/// Record a thrown value into the error-tracking binding. Going through the
/// context-side setter respects a user override of the visible name.
pub fn record_error_request(context_id: u64) -> (r: ProtocolRequest)
    ensures
        r matches ProtocolRequest::CallFunctionOn { function_declaration, context_id: c }
            && function_declaration@ == set_error_declaration() && c == context_id,
{
    ProtocolRequest::CallFunctionOn {
        function_declaration: "function (object) { Deno[Deno.internal].lastThrownError = object; }",
        context_id,
    }
}

/// Record a produced value into the result-tracking binding.
pub fn record_result_request(context_id: u64) -> (r: ProtocolRequest)
    ensures
        r matches ProtocolRequest::CallFunctionOn { function_declaration, context_id: c }
            && function_declaration@ == set_result_declaration() && c == context_id,
{
    ProtocolRequest::CallFunctionOn {
        function_declaration: "function (object) { Deno[Deno.internal].lastEvalResult = object; }",
        context_id,
    }
}

/// Fetch the pretty-printed display string of a value.
pub fn inspect_value_request(context_id: u64) -> (r: ProtocolRequest)
    ensures
        r matches ProtocolRequest::CallFunctionOn { function_declaration, context_id: c }
            && function_declaration@ == inspect_declaration() && c == context_id,
{
    ProtocolRequest::CallFunctionOn {
        function_declaration: "function (object) { return Deno[Deno.internal].inspectArgs(['%o', object], { colors: !Deno.noColor }); }",
        context_id,
    }
}

/// The prelude script evaluated once at session start, before any user
/// input. It installs `_` and `_error` as getters over the context's
/// tracking bindings; assigning either replaces it with a plain property and
/// prints a notice once, so a user override is respected from then on.
pub open spec fn prelude_text() -> Seq<char> {
    "\nObject.defineProperty(globalThis, \"_\", {\n  configurable: true,\n  get: () => Deno[Deno.internal].lastEvalResult,\n  set: (value) => {\n   Object.defineProperty(globalThis, \"_\", {\n     value: value,\n     writable: true,\n     enumerable: true,\n     configurable: true,\n   });\n   console.log(\"Last evaluation result is no longer saved to _.\");\n  },\n});\n\nObject.defineProperty(globalThis, \"_error\", {\n  configurable: true,\n  get: () => Deno[Deno.internal].lastThrownError,\n  set: (value) => {\n   Object.defineProperty(globalThis, \"_error\", {\n     value: value,\n     writable: true,\n     enumerable: true,\n     configurable: true,\n   });\n\n   console.log(\"Last thrown error is no longer saved to _error.\");\n  },\n});\n"@
}

/// The prelude script, ready to evaluate.
pub fn prelude_source() -> (s: &'static str)
    ensures
        s@ == prelude_text(),
{
    "\nObject.defineProperty(globalThis, \"_\", {\n  configurable: true,\n  get: () => Deno[Deno.internal].lastEvalResult,\n  set: (value) => {\n   Object.defineProperty(globalThis, \"_\", {\n     value: value,\n     writable: true,\n     enumerable: true,\n     configurable: true,\n   });\n   console.log(\"Last evaluation result is no longer saved to _.\");\n  },\n});\n\nObject.defineProperty(globalThis, \"_error\", {\n  configurable: true,\n  get: () => Deno[Deno.internal].lastThrownError,\n  set: (value) => {\n   Object.defineProperty(globalThis, \"_error\", {\n     value: value,\n     writable: true,\n     enumerable: true,\n     configurable: true,\n   });\n\n   console.log(\"Last thrown error is no longer saved to _error.\");\n  },\n});\n"
}

/// One notification read at startup: its method name, and the context id its
/// payload carries when it announces a created execution context.
pub struct ContextNotification {
    pub method: String,
    pub context_id: u64,
}

/// The method announcing a created execution context.
pub open spec fn context_created_method() -> Seq<char> {
    "Runtime.executionContextCreated"@
}

/// The context id the startup notifications announce: the one of the last
/// context-creation notification, or zero when there is none (zero is no
/// valid context id).
pub open spec fn spec_context_id(ns: Seq<ContextNotification>) -> u64
    decreases ns.len(),
{
    if ns.len() == 0 {
        0
    } else if ns.last().method@ == context_created_method() {
        ns.last().context_id
    } else {
        spec_context_id(ns.drop_last())
    }
}

/// Scan the startup notifications for the execution context id.
pub fn find_context_id(notifications: &Vec<ContextNotification>) -> (id: u64)
    ensures
        id == spec_context_id(notifications@),
{
    let mut id: u64 = 0;
    let mut i: usize = 0;
    proof {
        assert(notifications@.take(0) =~= Seq::<ContextNotification>::empty());
    }
    while i < notifications.len()
        invariant
            i <= notifications@.len(),
            id == spec_context_id(notifications@.take(i as int)),
        decreases notifications@.len() - i,
    {
        let n = &notifications[i];
        if crate::text::str_eq(n.method.as_str(), "Runtime.executionContextCreated") {
            id = n.context_id;
        }
        proof {
            assert(notifications@.take(i as int + 1).drop_last() =~= notifications@.take(i as int));
            assert(notifications@.take(i as int + 1).last() == notifications@[i as int]);
        }
        i = i + 1;
    }
    proof {
        assert(notifications@.take(notifications@.len() as int) =~= notifications@);
    }
    id
}

} // verus!
