//! The per-line evaluation pipeline, as a state machine: each step consumes
//! one event — the submitted line, a transpile result, an evaluation result,
//! a bookkeeping acknowledgement, a pretty-print string — and answers with
//! the next state and the action the host must perform. The host owns the
//! transpiler and the protocol channel; every decision stands here.
//!
//! Per line: wrap an object-literal-looking line in parentheses; transpile;
//! evaluate under a strict-mode guard in repl mode; if the wrapped form threw,
//! retry the unwrapped line once; record the thrown or produced value into
//! the context's tracking binding; fetch the pretty-printed string; display
//! it, prefixed with `Uncaught ` on an exception. A structured parse
//! diagnostic renders inline; any other transpile or transport failure is
//! fatal.

use vstd::prelude::*;

use crate::session::{
    spec_output_text, spec_parse_error, spec_should_wrap, spec_wrapped_text, output_text,
    parse_error_text, strict_guard, wrap_line,
};

verus! {

/// Where the pipeline stands for the current line.
pub enum PipelineState {
    /// No evaluation in flight.
    Idle,
    /// The (possibly wrapped) line is at the transpiler.
    FirstTranspile { line: String, wrapped: bool },
    /// The first transpiled form is being evaluated.
    FirstEval { line: String, wrapped: bool },
    /// The wrapped form threw; the unwrapped line is at the transpiler.
    RetryTranspile,
    /// The retried form is being evaluated.
    RetryEval,
    /// The thrown or produced value is being recorded.
    Record { exception: bool },
    /// The pretty-printed display string is being fetched.
    Inspect { exception: bool },
    /// The line is done; `output` is what the driver prints.
    Done { output: String },
    /// A transport or transpiler failure: the session ends.
    Failed,
}

/// What the host reports back to the pipeline.
pub enum PipelineEvent {
    /// The driver submits one accepted line.
    Submit { line: String },
    /// The transpiler produced executable source.
    TranspileOk { source: String },
    /// The transpiler reported a structured parse diagnostic.
    TranspileDiagnostic { message: String, line_number: u64, column: u64 },
    /// The transpiler failed in any other way.
    TranspileFatal,
    /// The evaluate call returned; `exception` says whether it threw.
    EvalDone { exception: bool },
    /// The tracking binding was updated.
    RecordDone,
    /// The pretty printer returned the display string.
    InspectDone { text: String },
    /// The protocol channel failed.
    TransportError,
}

/// What the host must do next.
pub enum PipelineAction {
    /// Hand `source` to the transpiler.
    Transpile { source: String },
    /// Send an evaluate request carrying `expression`.
    Evaluate { expression: String },
    /// Record the thrown value into the error-tracking binding.
    RecordError,
    /// Record the produced value into the result-tracking binding.
    RecordResult,
    /// Fetch the pretty-printed display string of the value.
    InspectValue,
    /// The line is finished: `output` is ready for display.
    Emit { output: String },
    /// End the session with the failure.
    Fail,
}

/// Which events each state can consume.
pub open spec fn pipeline_event_fits(s: PipelineState, e: PipelineEvent) -> bool {
    match e {
        PipelineEvent::Submit { .. } => s is Idle,
        PipelineEvent::TranspileOk { .. } => s is FirstTranspile || s is RetryTranspile,
        PipelineEvent::TranspileDiagnostic { .. } => s is FirstTranspile || s is RetryTranspile,
        PipelineEvent::TranspileFatal => s is FirstTranspile || s is RetryTranspile,
        PipelineEvent::EvalDone { .. } => s is FirstEval || s is RetryEval,
        PipelineEvent::RecordDone => s is Record,
        PipelineEvent::InspectDone { .. } => s is Inspect,
        PipelineEvent::TransportError => s is FirstEval || s is RetryEval || s is Record
            || s is Inspect,
    }
}

/// The transition relation: what the next state and action are for each state
/// and event. `colors` is the global color setting, read when a parse
/// diagnostic is rendered.
pub open spec fn pipeline_relation(
    s: PipelineState,
    e: PipelineEvent,
    colors: bool,
    s2: PipelineState,
    a: PipelineAction,
) -> bool {
    match (s, e) {
        (PipelineState::Idle, PipelineEvent::Submit { line }) => {
            &&& s2 matches PipelineState::FirstTranspile { line: l2, wrapped } && l2 == line
                && wrapped == spec_should_wrap(line@)
            &&& a matches PipelineAction::Transpile { source } && source@ == spec_wrapped_text(
                line@,
            )
        },
        (
            PipelineState::FirstTranspile { line, wrapped },
            PipelineEvent::TranspileOk { source },
        ) => {
            &&& s2 matches PipelineState::FirstEval { line: l2, wrapped: w2 } && l2 == line && w2
                == wrapped
            &&& a matches PipelineAction::Evaluate { expression } && expression@ == strict_guard()
                + source@
        },
        (PipelineState::RetryTranspile, PipelineEvent::TranspileOk { source }) => {
            &&& s2 is RetryEval
            &&& a matches PipelineAction::Evaluate { expression } && expression@ == strict_guard()
                + source@
        },
        (_, PipelineEvent::TranspileDiagnostic { message, line_number, column }) => {
            &&& s2 matches PipelineState::Done { output } && output@ == spec_parse_error(
                message@,
                line_number as int,
                column as int,
                colors,
            )
            &&& a matches PipelineAction::Emit { output } && output@ == spec_parse_error(
                message@,
                line_number as int,
                column as int,
                colors,
            )
        },
        (_, PipelineEvent::TranspileFatal) => s2 is Failed && a is Fail,
        (PipelineState::FirstEval { line, wrapped }, PipelineEvent::EvalDone { exception }) => {
            if exception && wrapped {
                // The literal reading failed: retry the line as written, once.
                &&& s2 is RetryTranspile
                &&& a matches PipelineAction::Transpile { source } && source == line
            } else {
                &&& s2 matches PipelineState::Record { exception: x } && x == exception
                &&& if exception {
                    a is RecordError
                } else {
                    a is RecordResult
                }
            }
        },
        (PipelineState::RetryEval, PipelineEvent::EvalDone { exception }) => {
            &&& s2 matches PipelineState::Record { exception: x } && x == exception
            &&& if exception {
                a is RecordError
            } else {
                a is RecordResult
            }
        },
        (PipelineState::Record { exception }, PipelineEvent::RecordDone) => {
            s2 matches PipelineState::Inspect { exception: x } && x == exception
                && a is InspectValue
        },
        (PipelineState::Inspect { exception }, PipelineEvent::InspectDone { text }) => {
            &&& s2 matches PipelineState::Done { output } && output@ == spec_output_text(
                text@,
                exception,
            )
            &&& a matches PipelineAction::Emit { output } && output@ == spec_output_text(
                text@,
                exception,
            )
        },
        (_, PipelineEvent::TransportError) => s2 is Failed && a is Fail,
        _ => true,
    }
}

/// Advance the pipeline by one event.
pub fn pipeline_step(state: PipelineState, event: PipelineEvent, colors: bool) -> (r: (
    PipelineState,
    PipelineAction,
))
    requires
        pipeline_event_fits(state, event),
    ensures
        pipeline_relation(state, event, colors, r.0, r.1),
{
    match (state, event) {
        (PipelineState::Idle, PipelineEvent::Submit { line }) => {
            let (source, wrapped) = wrap_line(line.as_str());
            (
                PipelineState::FirstTranspile { line, wrapped },
                PipelineAction::Transpile { source },
            )
        },
        (
            PipelineState::FirstTranspile { line, wrapped },
            PipelineEvent::TranspileOk { source },
        ) => {
            let mut expression = String::from_str("'use strict'; void 0;\n");
            expression.append(source.as_str());
            (
                PipelineState::FirstEval { line, wrapped },
                PipelineAction::Evaluate { expression },
            )
        },
        (PipelineState::RetryTranspile, PipelineEvent::TranspileOk { source }) => {
            let mut expression = String::from_str("'use strict'; void 0;\n");
            expression.append(source.as_str());
            (PipelineState::RetryEval, PipelineAction::Evaluate { expression })
        },
        (_, PipelineEvent::TranspileDiagnostic { message, line_number, column }) => {
            let output = parse_error_text(message.as_str(), line_number, column, colors);
            let emitted = output.clone();
            (PipelineState::Done { output }, PipelineAction::Emit { output: emitted })
        },
        (_, PipelineEvent::TranspileFatal) => (PipelineState::Failed, PipelineAction::Fail),
        (PipelineState::FirstEval { line, wrapped }, PipelineEvent::EvalDone { exception }) => {
            if exception && wrapped {
                (PipelineState::RetryTranspile, PipelineAction::Transpile { source: line })
            } else if exception {
                (PipelineState::Record { exception }, PipelineAction::RecordError)
            } else {
                (PipelineState::Record { exception }, PipelineAction::RecordResult)
            }
        },
        (PipelineState::RetryEval, PipelineEvent::EvalDone { exception }) => {
            if exception {
                (PipelineState::Record { exception }, PipelineAction::RecordError)
            } else {
                (PipelineState::Record { exception }, PipelineAction::RecordResult)
            }
        },
        (PipelineState::Record { exception }, PipelineEvent::RecordDone) => {
            (PipelineState::Inspect { exception }, PipelineAction::InspectValue)
        },
        (PipelineState::Inspect { exception }, PipelineEvent::InspectDone { text }) => {
            let output = output_text(text.as_str(), exception);
            let emitted = output.clone();
            (PipelineState::Done { output }, PipelineAction::Emit { output: emitted })
        },
        (_, PipelineEvent::TransportError) => (PipelineState::Failed, PipelineAction::Fail),
        _ => (PipelineState::Failed, PipelineAction::Fail),
    }
}

} // verus!
