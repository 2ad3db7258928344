use repl_core::driver::{
    bridge_step, error_line, hint_line, run_driver, BridgeDecision, BridgeEvent, DriverEvent,
};

fn line(text: &str, output: &str, closing: bool) -> DriverEvent {
    DriverEvent::LineEvaluated {
        text: text.to_string(),
        output: output.to_string(),
        closing,
    }
}

#[test]
fn lines_print_and_enter_history() {
    let events = vec![line("1+1", "2", false), line("'a'", "\"a\"", false), DriverEvent::Eof];
    let t = run_driver(&events);
    assert_eq!(t.printed, vec!["2".to_string(), "\"a\"".to_string()]);
    assert_eq!(t.history, vec!["1+1".to_string(), "'a'".to_string()]);
    assert!(t.saved);
}

#[test]
fn closing_ends_the_loop_after_the_evaluation() {
    // The close request runs to completion, but its output is not printed,
    // it enters no history, and history is still persisted.
    let events = vec![
        line("1+1", "2", false),
        line("close()", "undefined", true),
        line("after", "never", false),
    ];
    let t = run_driver(&events);
    assert_eq!(t.printed, vec!["2".to_string()]);
    assert_eq!(t.history, vec!["1+1".to_string()]);
    assert!(t.saved);
}

#[test]
fn interrupt_reprints_the_hint_and_continues() {
    let events = vec![DriverEvent::Interrupted, line("1", "1", false), DriverEvent::Eof];
    let t = run_driver(&events);
    assert_eq!(t.printed, vec![hint_line().to_string(), "1".to_string()]);
    assert_eq!(t.history, vec!["1".to_string()]);
    assert!(t.saved);
}

#[test]
fn read_failures_print_and_end_the_loop() {
    let events = vec![DriverEvent::ReadFailure { message: "tty gone".to_string() }];
    let t = run_driver(&events);
    assert_eq!(t.printed, vec!["Error: tty gone".to_string()]);
    assert!(t.history.is_empty());
    assert!(t.saved);
}

#[test]
fn eof_ends_cleanly_with_nothing_printed() {
    let t = run_driver(&vec![DriverEvent::Eof]);
    assert!(t.printed.is_empty());
    assert!(t.history.is_empty());
    assert!(t.saved);
}

#[test]
fn without_an_ending_event_the_loop_is_still_running() {
    let t = run_driver(&vec![line("1", "1", false)]);
    assert_eq!(t.printed, vec!["1".to_string()]);
    assert!(!t.saved);
}

#[test]
fn error_lines_carry_the_message() {
    assert_eq!(error_line("boom"), "Error: boom");
    assert_eq!(hint_line(), "exit using ctrl+d or close()");
}

#[test]
fn the_bridge_polls_until_a_step_completes() {
    // A completed scheduler step clears the poll flag.
    let (flag, d) = bridge_step(true, BridgeEvent::WorkerTick);
    assert!(!flag);
    assert!(matches!(d, BridgeDecision::Continue));
    // The periodic timeout sets it again.
    let (flag, d) = bridge_step(false, BridgeEvent::TimeoutFired);
    assert!(flag);
    assert!(matches!(d, BridgeDecision::Continue));
    // A finished read ends the bridge.
    let (_, d) = bridge_step(true, BridgeEvent::LineReady);
    assert!(matches!(d, BridgeDecision::ReturnLine));
}
