//! The top-level loop's bookkeeping, replayed over the events the host hands
//! it: an evaluated line together with the host's closed flag, an interrupt,
//! end of input, or a read failure. The driver decides what is printed, what
//! enters history, and when the session ends; history is persisted exactly
//! when it ends. The closed flag is checked after the evaluation, so an
//! expression that closes the host still runs to completion, but its output
//! is not printed and the line does not enter history.
//!
//! Also here: the flag automaton of the concurrency bridge that alternates
//! blocking line reads with host scheduler steps.

use vstd::prelude::*;

verus! {

/// One turn of the loop, as the host reports it. Evaluation itself runs
/// through the pipeline; its output and the closed flag probed right after it
/// arrive here as plain values.
pub enum DriverEvent {
    /// A line was read and evaluated: its text, the display string, and the
    /// host's closed flag probed after the evaluation.
    LineEvaluated { text: String, output: String, closing: bool },
    /// The read was interrupted: reprint the exit hint and keep going.
    Interrupted,
    /// End of input: the session ends cleanly.
    Eof,
    /// Any other read failure: print it and end the session.
    ReadFailure { message: String },
}

/// The exit hint, printed at startup and after an interrupt.
pub open spec fn hint_text() -> Seq<char> {
    "exit using ctrl+d or close()"@
}

/// The exit hint line.
pub fn hint_line() -> (s: &'static str)
    ensures
        s@ == hint_text(),
{
    "exit using ctrl+d or close()"
}

/// The rendering of a fatal read failure.
pub open spec fn spec_error_line(message: Seq<char>) -> Seq<char> {
    "Error: "@ + message
}

/// Render a fatal read failure.
pub fn error_line(message: &str) -> (out: String)
    ensures
        out@ == spec_error_line(message@),
{
    let mut out = String::from_str("Error: ");
    out.append(message);
    out
}

/// Everything observable the loop leaves behind: the lines printed after the
/// banner, the history entries appended, and whether the loop ended (history
/// is persisted exactly then).
pub struct SessionTrace {
    pub printed: Seq<Seq<char>>,
    pub history: Seq<Seq<char>>,
    pub ended: bool,
}

/// The loop's trace over a sequence of events. A closing evaluation or end of
/// input ends the loop at once, printing nothing further; an interrupt prints
/// the hint and goes on; a read failure prints itself and ends the loop.
pub open spec fn spec_drive(events: Seq<DriverEvent>) -> SessionTrace
    decreases events.len(),
{
    if events.len() == 0 {
        SessionTrace { printed: Seq::empty(), history: Seq::empty(), ended: false }
    } else {
        match events[0] {
            DriverEvent::LineEvaluated { text, output, closing } => {
                if closing {
                    SessionTrace { printed: Seq::empty(), history: Seq::empty(), ended: true }
                } else {
                    let rest = spec_drive(events.skip(1));
                    SessionTrace {
                        printed: seq![output@] + rest.printed,
                        history: seq![text@] + rest.history,
                        ended: rest.ended,
                    }
                }
            },
            DriverEvent::Interrupted => {
                let rest = spec_drive(events.skip(1));
                SessionTrace {
                    printed: seq![hint_text()] + rest.printed,
                    history: rest.history,
                    ended: rest.ended,
                }
            },
            DriverEvent::Eof => SessionTrace {
                printed: Seq::empty(),
                history: Seq::empty(),
                ended: true,
            },
            DriverEvent::ReadFailure { message } => SessionTrace {
                printed: seq![spec_error_line(message@)],
                history: Seq::empty(),
                ended: true,
            },
        }
    }
}

/// What one run of the loop did.
pub struct DriverTrace {
    /// The lines printed, in order.
    pub printed: Vec<String>,
    /// The history entries appended, in order.
    pub history: Vec<String>,
    /// Whether the loop ended and history was persisted.
    pub saved: bool,
}

/// Replay the loop over a sequence of events, collecting what it prints, what
/// it appends to history, and whether it ended (persisting history).
pub fn run_driver(events: &Vec<DriverEvent>) -> (t: DriverTrace)
    ensures
        t.printed.deep_view() == spec_drive(events@).printed,
        t.history.deep_view() == spec_drive(events@).history,
        t.saved == spec_drive(events@).ended,
{
    let mut printed: Vec<String> = Vec::new();
    let mut history: Vec<String> = Vec::new();
    let mut i: usize = 0;
    proof {
        assert(events@.skip(0) =~= events@);
        assert(printed.deep_view() =~= Seq::<Seq<char>>::empty());
        assert(history.deep_view() =~= Seq::<Seq<char>>::empty());
    }
    while i < events.len()
        invariant
            i <= events@.len(),
            spec_drive(events@).printed == printed.deep_view() + spec_drive(
                events@.skip(i as int),
            ).printed,
            spec_drive(events@).history == history.deep_view() + spec_drive(
                events@.skip(i as int),
            ).history,
            spec_drive(events@).ended == spec_drive(events@.skip(i as int)).ended,
        decreases events@.len() - i,
    {
        proof {
            assert(events@.skip(i as int)[0] == events@[i as int]);
            assert(events@.skip(i as int).skip(1) =~= events@.skip(i as int + 1));
        }
        let ghost pre_printed = printed.deep_view();
        let ghost pre_history = history.deep_view();
        match &events[i] {
            DriverEvent::LineEvaluated { text, output, closing } => {
                if *closing {
                    // The evaluation asked the host to close: print nothing
                    // for this line, skip its history entry, end the loop.
                    proof {
                        assert(printed.deep_view() + Seq::<Seq<char>>::empty()
                            =~= printed.deep_view());
                        assert(history.deep_view() + Seq::<Seq<char>>::empty()
                            =~= history.deep_view());
                    }
                    return DriverTrace { printed, history, saved: true };
                }
                printed.push(output.clone());
                history.push(text.clone());
                proof {
                    assert(printed.deep_view() =~= pre_printed.push(output@));
                    assert(history.deep_view() =~= pre_history.push(text@));
                    assert(pre_printed.push(output@) + spec_drive(
                        events@.skip(i as int + 1),
                    ).printed =~= pre_printed + (seq![output@] + spec_drive(
                        events@.skip(i as int + 1),
                    ).printed));
                    assert(pre_history.push(text@) + spec_drive(events@.skip(i as int + 1)).history
                        =~= pre_history + (seq![text@] + spec_drive(
                        events@.skip(i as int + 1),
                    ).history));
                }
            },
            DriverEvent::Interrupted => {
                printed.push(String::from_str(hint_line()));
                proof {
                    assert(printed.deep_view() =~= pre_printed.push(hint_text()));
                    assert(pre_printed.push(hint_text()) + spec_drive(
                        events@.skip(i as int + 1),
                    ).printed =~= pre_printed + (seq![hint_text()] + spec_drive(
                        events@.skip(i as int + 1),
                    ).printed));
                }
            },
            DriverEvent::Eof => {
                proof {
                    assert(printed.deep_view() + Seq::<Seq<char>>::empty() =~= printed.deep_view());
                    assert(history.deep_view() + Seq::<Seq<char>>::empty() =~= history.deep_view());
                }
                return DriverTrace { printed, history, saved: true };
            },
            DriverEvent::ReadFailure { message } => {
                printed.push(error_line(message.as_str()));
                proof {
                    assert(printed.deep_view() =~= pre_printed.push(spec_error_line(message@)));
                    assert(pre_printed.push(spec_error_line(message@)) =~= pre_printed + seq![
                        spec_error_line(message@),
                    ]);
                    assert(history.deep_view() + Seq::<Seq<char>>::empty() =~= history.deep_view());
                }
                return DriverTrace { printed, history, saved: true };
            },
        }
        i = i + 1;
    }
    proof {
        assert(events@.skip(events@.len() as int) =~= Seq::<DriverEvent>::empty());
        assert(printed.deep_view() + Seq::<Seq<char>>::empty() =~= printed.deep_view());
        assert(history.deep_view() + Seq::<Seq<char>>::empty() =~= history.deep_view());
    }
    DriverTrace { printed, history, saved: false }
}

/// The output of an evaluated-line event; meaningful when the requires of
/// `lemma_close_ends_session` hold.
pub open spec fn output_of(e: DriverEvent) -> Seq<char> {
    match e {
        DriverEvent::LineEvaluated { output, .. } => output@,
        _ => Seq::empty(),
    }
}

/// The text of an evaluated-line event.
pub open spec fn text_of(e: DriverEvent) -> Seq<char> {
    match e {
        DriverEvent::LineEvaluated { text, .. } => text@,
        _ => Seq::empty(),
    }
}

/// An evaluation that reports the closed flag ends the session right there:
/// every earlier line was printed and entered history, nothing is printed for
/// the closing line or after it, it enters no history, and the loop ends — so
/// history is persisted.
pub proof fn lemma_close_ends_session(
    before: Seq<DriverEvent>,
    line: DriverEvent,
    after: Seq<DriverEvent>,
)
    requires
        line matches DriverEvent::LineEvaluated { closing, .. } && closing,
        forall|j: int| #![trigger before[j]]
            0 <= j < before.len() ==> (before[j] matches DriverEvent::LineEvaluated {
                closing,
                ..
            } && !closing),
    ensures
        spec_drive(before + seq![line] + after).ended,
        spec_drive(before + seq![line] + after).printed == before.map_values(
            |e: DriverEvent| output_of(e),
        ),
        spec_drive(before + seq![line] + after).history == before.map_values(
            |e: DriverEvent| text_of(e),
        ),
    decreases before.len(),
{
    let s = before + seq![line] + after;
    if before.len() == 0 {
        assert(s =~= seq![line] + after);
        assert(s[0] == line);
        assert(before.map_values(|e: DriverEvent| output_of(e)) =~= Seq::<Seq<char>>::empty());
        assert(before.map_values(|e: DriverEvent| text_of(e)) =~= Seq::<Seq<char>>::empty());
    } else {
        assert(s[0] == before[0]);
        assert(s.skip(1) =~= before.skip(1) + seq![line] + after);
        lemma_close_ends_session(before.skip(1), line, after);
        let rest = spec_drive(s.skip(1));
        assert(before.map_values(|e: DriverEvent| output_of(e)) =~= seq![output_of(before[0])]
            + before.skip(1).map_values(|e: DriverEvent| output_of(e)));
        assert(before.map_values(|e: DriverEvent| text_of(e)) =~= seq![text_of(before[0])]
            + before.skip(1).map_values(|e: DriverEvent| text_of(e)));
    }
}

/// What the bridge races while a line is being read.
pub enum BridgeEvent {
    /// The blocking read finished: the bridge returns its result.
    LineReady,
    /// One cooperative step of the host scheduler completed.
    WorkerTick,
    /// The fixed poll timeout fired.
    TimeoutFired,
}

/// Whether the bridge keeps racing or hands the read result back.
pub enum BridgeDecision {
    ReturnLine,
    Continue,
}

/// One turn of the bridge's race. The scheduler is only raced while the poll
/// flag is set; a completed step clears the flag, so the loop stops
/// spin-polling once nothing new surfaced, and the periodic timeout sets it
/// again, picking up work that attached to the host without waking it.
pub fn bridge_step(poll_worker: bool, event: BridgeEvent) -> (r: (bool, BridgeDecision))
    requires
        event is WorkerTick ==> poll_worker,
    ensures
        (r.1 is ReturnLine) == (event is LineReady),
        event is WorkerTick ==> !r.0,
        event is TimeoutFired ==> r.0,
        event is LineReady ==> r.0 == poll_worker,
{
    match event {
        BridgeEvent::LineReady => (poll_worker, BridgeDecision::ReturnLine),
        BridgeEvent::WorkerTick => (false, BridgeDecision::Continue),
        BridgeEvent::TimeoutFired => (true, BridgeDecision::Continue),
    }
}

} // verus!
