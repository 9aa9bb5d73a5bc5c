//! TaskCompleted with a reflection nudge on every fifth completed task.
use crate::hook_io::{hook_output, HookOutput};
use crate::state::SessionState;
use crate::text::{append, chars_of, dec, decimal, string_of};
use vstd::prelude::*;

verus! {

/// The nudge after `n` completed tasks.
pub open spec fn nudge_text(n: nat) -> Seq<char> {
    "Exo-self: "@ + dec(n) + " tasks done. Anything worth noting in your session notes?"@
}

/// Counts one completed task for a session and, on every fifth one unless
/// task reflections are suppressed, returns the nudge to inject. An input
/// without a session id counts nothing. The caller stamps the time and
/// saves the state when a session id was given.
pub fn run(state: &mut SessionState, session_id: &str) -> (r: Option<HookOutput>)
    requires
        old(state).task_completions < u32::MAX,
    ensures
        session_id@.len() == 0 ==> r is None && *final(state) == *old(state),
        session_id@.len() > 0 ==> {
            let n = old(state).task_completions + 1;
            &&& *final(state) == (SessionState { task_completions: n as u32, ..*old(state) })
            &&& if n % 5 == 0 && !old(state).task_reflection_suppressed {
                r matches Some(out) && out.hook_specific_output.hook_event_name@ == "TaskCompleted"@
                    && out.hook_specific_output.additional_context@ == nudge_text(n as nat)
            } else {
                r is None
            }
        },
{
    if session_id.is_empty() {
        return None;
    }
    state.task_completions = state.task_completions + 1;
    if state.task_completions % 5 == 0 && !state.task_reflection_suppressed {
        let mut m = chars_of("Exo-self: ");
        append(&mut m, &decimal(state.task_completions as u64));
        append(&mut m, &chars_of(" tasks done. Anything worth noting in your session notes?"));
        let msg = string_of(m);
        Some(hook_output("TaskCompleted", msg.as_str()))
    } else {
        None
    }
}

} // verus!
