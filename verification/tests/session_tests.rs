use repl_core::session::{
    closing_probe_request, dec_string, find_context_id, inspect_value_request, method_name,
    output_text, parse_error_text, prelude_source, record_error_request, record_result_request,
    repl_evaluate_request, side_effect_probe_request, wrap_line, ContextNotification,
    ProtocolRequest,
};

#[test]
fn object_literal_lines_are_wrapped() {
    assert_eq!(wrap_line("{ a: 1 }"), ("({ a: 1 })".to_string(), true));
    assert_eq!(wrap_line("{ console.log(1) }"), ("({ console.log(1) })".to_string(), true));
    assert_eq!(wrap_line("  { x }  "), ("(  { x }  )".to_string(), true));
}

#[test]
fn statement_like_lines_are_not_wrapped() {
    assert_eq!(wrap_line("{ a: 1 };"), ("{ a: 1 };".to_string(), false));
    assert_eq!(wrap_line("1+1"), ("1+1".to_string(), false));
    assert_eq!(wrap_line(""), ("".to_string(), false));
    assert_eq!(wrap_line("   "), ("   ".to_string(), false));
    assert_eq!(wrap_line("{ x };  "), ("{ x };  ".to_string(), false));
}

#[test]
fn decimal_formatting() {
    assert_eq!(dec_string(0), "0");
    assert_eq!(dec_string(7), "7");
    assert_eq!(dec_string(42), "42");
    assert_eq!(dec_string(1090), "1090");
    assert_eq!(dec_string(u64::MAX), "18446744073709551615");
}

#[test]
fn parse_diagnostics_render_inline() {
    assert_eq!(
        parse_error_text("Unexpected token", 1, 5, false),
        "parse error: Unexpected token at 1:5"
    );
    assert_eq!(
        parse_error_text("Unexpected token", 1, 5, true),
        "\u{1b}[31mparse error\u{1b}[0m: Unexpected token at 1:5"
    );
}

#[test]
fn exceptions_display_with_the_uncaught_prefix() {
    assert_eq!(output_text("2", false), "2");
    assert_eq!(output_text("Error: x", true), "Uncaught Error: x");
}

#[test]
fn request_methods() {
    assert_eq!(method_name(&repl_evaluate_request("1".to_string(), 1)), "Runtime.evaluate");
    assert_eq!(method_name(&record_error_request(1)), "Runtime.callFunctionOn");
    assert_eq!(method_name(&record_result_request(1)), "Runtime.callFunctionOn");
    assert_eq!(method_name(&inspect_value_request(1)), "Runtime.callFunctionOn");
    assert_eq!(method_name(&ProtocolRequest::GetProperties), "Runtime.getProperties");
    assert_eq!(
        method_name(&ProtocolRequest::GlobalLexicalScopeNames { context_id: 1 }),
        "Runtime.globalLexicalScopeNames"
    );
}

#[test]
fn repl_evaluation_runs_in_repl_mode() {
    match repl_evaluate_request("1+1".to_string(), 9) {
        ProtocolRequest::Evaluate { params } => {
            assert_eq!(params.expression, "1+1");
            assert_eq!(params.context_id, 9);
            assert!(params.repl_mode);
            assert!(!params.throw_on_side_effect);
            assert_eq!(params.timeout_ms, None);
        },
        _ => panic!("expected an evaluate request"),
    }
}

#[test]
fn completion_probe_is_side_effect_free_and_bounded() {
    match side_effect_probe_request("foo".to_string(), 9) {
        ProtocolRequest::Evaluate { params } => {
            assert_eq!(params.expression, "foo");
            assert!(!params.repl_mode);
            assert!(params.throw_on_side_effect);
            assert_eq!(params.timeout_ms, Some(200));
        },
        _ => panic!("expected an evaluate request"),
    }
}

#[test]
fn closing_probe_reads_the_closed_global() {
    match closing_probe_request(3) {
        ProtocolRequest::Evaluate { params } => {
            assert_eq!(params.expression, "(globalThis.closed)");
            assert!(params.repl_mode);
        },
        _ => panic!("expected an evaluate request"),
    }
}

#[test]
fn recording_goes_through_the_context_side_setters() {
    match record_error_request(4) {
        ProtocolRequest::CallFunctionOn { function_declaration, context_id } => {
            assert_eq!(
                function_declaration,
                "function (object) { Deno[Deno.internal].lastThrownError = object; }"
            );
            assert_eq!(context_id, 4);
        },
        _ => panic!("expected a function call request"),
    }
    match record_result_request(4) {
        ProtocolRequest::CallFunctionOn { function_declaration, .. } => {
            assert_eq!(
                function_declaration,
                "function (object) { Deno[Deno.internal].lastEvalResult = object; }"
            );
        },
        _ => panic!("expected a function call request"),
    }
    match inspect_value_request(4) {
        ProtocolRequest::CallFunctionOn { function_declaration, .. } => {
            assert!(function_declaration.contains("inspectArgs"));
            assert!(function_declaration.contains("colors: !Deno.noColor"));
        },
        _ => panic!("expected a function call request"),
    }
}

#[test]
fn the_prelude_installs_both_tracking_bindings() {
    let p = prelude_source();
    assert!(p.contains("Object.defineProperty(globalThis, \"_\","));
    assert!(p.contains("Object.defineProperty(globalThis, \"_error\","));
    assert!(p.contains("Deno[Deno.internal].lastEvalResult"));
    assert!(p.contains("Deno[Deno.internal].lastThrownError"));
    assert!(p.contains("Last evaluation result is no longer saved to _."));
    assert!(p.contains("Last thrown error is no longer saved to _error."));
}

#[test]
fn the_last_context_creation_notification_wins() {
    let created = "Runtime.executionContextCreated";
    assert_eq!(find_context_id(&Vec::new()), 0);
    let ns = vec![
        ContextNotification { method: "Runtime.other".to_string(), context_id: 5 },
        ContextNotification { method: created.to_string(), context_id: 7 },
    ];
    assert_eq!(find_context_id(&ns), 7);
    let ns2 = vec![
        ContextNotification { method: created.to_string(), context_id: 3 },
        ContextNotification { method: created.to_string(), context_id: 9 },
        ContextNotification { method: "Runtime.other".to_string(), context_id: 11 },
    ];
    assert_eq!(find_context_id(&ns2), 9);
}
