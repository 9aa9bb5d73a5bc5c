//! Stop: before the session stops, ask once for a sentence of notes when
//! the session had signal and nothing was written.
use crate::hook_io::{decision_output, DecisionOutput};
use crate::state::{counts, top, top_counter, SessionState};
use crate::text::{append, chars_of, dec, decimal, string_of};
use vstd::prelude::*;

verus! {

/// What the stop hook knows besides the state.
pub struct StopInput {
    /// The host is already continuing after a stop hook.
    pub stop_hook_active: bool,
    /// A reminder blocked a stop less than a minute ago.
    pub cooling_down: bool,
    /// Whole minutes since the session started (0 when unknown).
    pub minutes: u32,
    /// Notes were written during the session.
    pub wrote_notes: bool,
    /// The exo-self directory as shown to the agent.
    pub notes_home: String,
}

/// What the stop hook decided.
pub struct StopOutcome {
    /// The guards let the check run (the caller then stamps the session end).
    pub checked: bool,
    /// The block decision, when the stop is held for a note.
    pub decision: Option<DecisionOutput>,
}

/// The signals a reminder names: failures with the tool failing most,
/// completed tasks, compactions.
pub open spec fn signal_words(state: SessionState) -> Seq<char> {
    let top_tool = match top(counts(state.failure_tools@)) {
        Some(e) => e.0,
        None => "tools"@,
    };
    (if state.tool_failures >= 3 {
        ", "@ + dec(state.tool_failures as nat) + " failures ("@ + top_tool + ")"@
    } else {
        seq![]
    }) + (if state.task_completions >= 2 {
        ", "@ + dec(state.task_completions as nat) + " tasks done"@
    } else {
        seq![]
    }) + (if state.compactions > 0 {
        ", "@ + dec(state.compactions as nat) + "x compacted"@
    } else {
        seq![]
    })
}

/// Where the note should go.
pub open spec fn stop_target(state: SessionState, notes_home: Seq<char>) -> Seq<char> {
    if state.project_slug@.len() > 0 {
        notes_home + "/per-project/"@ + state.project_slug@ + "/"@
    } else {
        "journal.md"@
    }
}

/// The reminder's reason.
pub open spec fn stop_reason(minutes: nat, state: SessionState, notes_home: Seq<char>) -> Seq<char> {
    "Exo-self: ~"@ + dec(minutes) + " min session"@ + signal_words(state) + ". A sentence to ~/"@
        + stop_target(state, notes_home) + "? If nothing to note, just stop."@
}

fn signal_words_exec(state: &SessionState) -> (r: Vec<char>)
    ensures
        r@ == signal_words(*state),
{
    let mut a: Vec<char> = Vec::new();
    if state.tool_failures >= 3 {
        let top_tool = match top_counter(&state.failure_tools) {
            Some((t, _)) => t,
            None => "tools".to_owned(),
        };
        a = chars_of(", ");
        append(&mut a, &decimal(state.tool_failures as u64));
        append(&mut a, &chars_of(" failures ("));
        append(&mut a, &chars_of(top_tool.as_str()));
        append(&mut a, &chars_of(")"));
    }
    let mut b: Vec<char> = Vec::new();
    if state.task_completions >= 2 {
        b = chars_of(", ");
        append(&mut b, &decimal(state.task_completions as u64));
        append(&mut b, &chars_of(" tasks done"));
    }
    let mut c: Vec<char> = Vec::new();
    if state.compactions > 0 {
        c = chars_of(", ");
        append(&mut c, &decimal(state.compactions as u64));
        append(&mut c, &chars_of("x compacted"));
    }
    append(&mut a, &b);
    append(&mut a, &c);
    a
}

fn stop_reason_exec(minutes: u32, state: &SessionState, notes_home: &str) -> (r: String)
    ensures
        r@ == stop_reason(minutes as nat, *state, notes_home@),
{
    let mut m = chars_of("Exo-self: ~");
    append(&mut m, &decimal(minutes as u64));
    append(&mut m, &chars_of(" min session"));
    append(&mut m, &signal_words_exec(state));
    append(&mut m, &chars_of(". A sentence to ~/"));
    if !state.project_slug.as_str().is_empty() {
        append(&mut m, &chars_of(notes_home));
        append(&mut m, &chars_of("/per-project/"));
        append(&mut m, &chars_of(state.project_slug.as_str()));
        append(&mut m, &chars_of("/"));
    } else {
        append(&mut m, &chars_of("journal.md"));
    }
    append(&mut m, &chars_of("? If nothing to note, just stop."));
    string_of(m)
}

/// Decides whether to hold the stop for a note. Notes written after the
/// check-in mark it answered first; then nothing happens when the host is
/// already continuing, a reminder was given, or one was given under a
/// minute ago. Otherwise a session of five minutes or more with signal (a
/// check-in, three failures, two tasks or a compaction) and no notes is held
/// once, with a reason naming the signals.
pub fn run(state: &mut SessionState, input: &StopInput) -> (r: StopOutcome)
    ensures
        ({
            let o = *old(state);
            let s = *final(state);
            let responded = o.checkin_responded || (input.wrote_notes && o.checkin_fired);
            let guarded = input.stop_hook_active || o.stop_reminded || input.cooling_down;
            let signal = o.checkin_fired || o.tool_failures >= 3 || o.task_completions >= 2
                || o.compactions > 0;
            let block = !guarded && !input.wrote_notes && input.minutes >= 5 && signal;
            &&& s == (SessionState { checkin_responded: responded, stop_reminded: o.stop_reminded || block, ..o })
            &&& r.checked == !guarded
            &&& if block {
                r.decision matches Some(d) && d.decision@ == "block"@ && d.reason@ == stop_reason(
                    input.minutes as nat,
                    o,
                    input.notes_home@,
                )
            } else {
                r.decision is None
            }
        }),
{
    if input.wrote_notes && state.checkin_fired && !state.checkin_responded {
        state.checkin_responded = true;
    }
    if input.stop_hook_active || state.stop_reminded || input.cooling_down {
        return StopOutcome { checked: false, decision: None };
    }
    let signal = state.checkin_fired || state.tool_failures >= 3 || state.task_completions >= 2
        || state.compactions > 0;
    if !input.wrote_notes && input.minutes >= 5 && signal {
        let reason = stop_reason_exec(input.minutes, state, input.notes_home.as_str());
        state.stop_reminded = true;
        StopOutcome { checked: true, decision: Some(decision_output("block", reason.as_str())) }
    } else {
        StopOutcome { checked: true, decision: None }
    }
}

} // verus!
