use repl_core::pipeline::{pipeline_step, PipelineAction, PipelineEvent, PipelineState};

fn submit(line: &str) -> PipelineEvent {
    PipelineEvent::Submit { line: line.to_string() }
}

#[test]
fn object_literal_line_evaluates_wrapped() {
    // `{ a: 1 }` is submitted wrapped, evaluates without an exception, and
    // displays as the object.
    let (s, a) = pipeline_step(PipelineState::Idle, submit("{ a: 1 }"), false);
    match &a {
        PipelineAction::Transpile { source } => assert_eq!(source, "({ a: 1 })"),
        _ => panic!("expected a transpile action"),
    }
    let (s, a) = pipeline_step(
        s,
        PipelineEvent::TranspileOk { source: "({ a: 1 })".to_string() },
        false,
    );
    match &a {
        PipelineAction::Evaluate { expression } => {
            assert_eq!(expression, "'use strict'; void 0;\n({ a: 1 })");
        },
        _ => panic!("expected an evaluate action"),
    }
    let (s, a) = pipeline_step(s, PipelineEvent::EvalDone { exception: false }, false);
    assert!(matches!(a, PipelineAction::RecordResult));
    let (s, a) = pipeline_step(s, PipelineEvent::RecordDone, false);
    assert!(matches!(a, PipelineAction::InspectValue));
    let (s, a) = pipeline_step(
        s,
        PipelineEvent::InspectDone { text: "{ a: 1 }".to_string() },
        false,
    );
    match a {
        PipelineAction::Emit { output } => assert_eq!(output, "{ a: 1 }"),
        _ => panic!("expected the output"),
    }
    assert!(matches!(s, PipelineState::Done { .. }));
}

#[test]
fn failed_wrap_falls_back_to_the_block_statement() {
    // `{ console.log(1) }` without a trailing `;`: the wrapped form throws,
    // the unwrapped line is retried once and succeeds.
    let (s, a) = pipeline_step(PipelineState::Idle, submit("{ console.log(1) }"), false);
    match &a {
        PipelineAction::Transpile { source } => assert_eq!(source, "({ console.log(1) })"),
        _ => panic!("expected a transpile action"),
    }
    let (s, _) = pipeline_step(
        s,
        PipelineEvent::TranspileOk { source: "({ console.log(1) })".to_string() },
        false,
    );
    let (s, a) = pipeline_step(s, PipelineEvent::EvalDone { exception: true }, false);
    match &a {
        PipelineAction::Transpile { source } => assert_eq!(source, "{ console.log(1) }"),
        _ => panic!("expected the unwrapped retry"),
    }
    assert!(matches!(s, PipelineState::RetryTranspile));
    let (s, a) = pipeline_step(
        s,
        PipelineEvent::TranspileOk { source: "{ console.log(1) }".to_string() },
        false,
    );
    match &a {
        PipelineAction::Evaluate { expression } => {
            assert_eq!(expression, "'use strict'; void 0;\n{ console.log(1) }");
        },
        _ => panic!("expected an evaluate action"),
    }
    // The block executes (logging 1) and produces no exception.
    let (_, a) = pipeline_step(s, PipelineEvent::EvalDone { exception: false }, false);
    assert!(matches!(a, PipelineAction::RecordResult));
}

#[test]
fn a_retry_that_still_throws_records_the_error() {
    let (s, _) = pipeline_step(PipelineState::Idle, submit("{ boom() }"), false);
    let (s, _) = pipeline_step(
        s,
        PipelineEvent::TranspileOk { source: "({ boom() })".to_string() },
        false,
    );
    let (s, _) = pipeline_step(s, PipelineEvent::EvalDone { exception: true }, false);
    let (s, _) = pipeline_step(
        s,
        PipelineEvent::TranspileOk { source: "{ boom() }".to_string() },
        false,
    );
    let (s, a) = pipeline_step(s, PipelineEvent::EvalDone { exception: true }, false);
    assert!(matches!(a, PipelineAction::RecordError));
    let (s, _) = pipeline_step(s, PipelineEvent::RecordDone, false);
    let (_, a) = pipeline_step(
        s,
        PipelineEvent::InspectDone { text: "Error: x".to_string() },
        false,
    );
    match a {
        PipelineAction::Emit { output } => assert_eq!(output, "Uncaught Error: x"),
        _ => panic!("expected the output"),
    }
}

#[test]
fn an_unwrapped_exception_is_not_retried() {
    let (s, _) = pipeline_step(PipelineState::Idle, submit("throw new Error('x')"), false);
    let (s, a) = pipeline_step(
        s,
        PipelineEvent::TranspileOk { source: "throw new Error('x')".to_string() },
        false,
    );
    match &a {
        PipelineAction::Evaluate { expression } => {
            assert_eq!(expression, "'use strict'; void 0;\nthrow new Error('x')");
        },
        _ => panic!("expected an evaluate action"),
    }
    // Not wrapped, so the exception goes straight to bookkeeping.
    let (_, a) = pipeline_step(s, PipelineEvent::EvalDone { exception: true }, false);
    assert!(matches!(a, PipelineAction::RecordError));
}

#[test]
fn parse_diagnostics_end_the_line_inline() {
    let (s, _) = pipeline_step(PipelineState::Idle, submit("1 +"), false);
    let (s, a) = pipeline_step(
        s,
        PipelineEvent::TranspileDiagnostic {
            message: "Unexpected eof".to_string(),
            line_number: 1,
            column: 4,
        },
        false,
    );
    match a {
        PipelineAction::Emit { output } => {
            assert_eq!(output, "parse error: Unexpected eof at 1:4");
        },
        _ => panic!("expected the rendered diagnostic"),
    }
    assert!(matches!(s, PipelineState::Done { .. }));
}

#[test]
fn transport_failures_are_fatal() {
    let (s, _) = pipeline_step(PipelineState::Idle, submit("1"), false);
    let (s, _) = pipeline_step(s, PipelineEvent::TranspileOk { source: "1".to_string() }, false);
    let (s, a) = pipeline_step(s, PipelineEvent::TransportError, false);
    assert!(matches!(s, PipelineState::Failed));
    assert!(matches!(a, PipelineAction::Fail));
}

#[test]
fn other_transpile_failures_are_fatal() {
    let (s, _) = pipeline_step(PipelineState::Idle, submit("1"), false);
    let (s, a) = pipeline_step(s, PipelineEvent::TranspileFatal, false);
    assert!(matches!(s, PipelineState::Failed));
    assert!(matches!(a, PipelineAction::Fail));
}
