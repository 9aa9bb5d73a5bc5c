//! TaskCompleted: count the completion; the counter feeds the engagement
//! patterns of the context monitor.
use crate::state::SessionState;
use vstd::prelude::*;

verus! {

/// Counts one completed task for a session; an input without a session id
/// counts nothing. Returns whether the completion was recorded (the caller
/// then stamps its time and saves the state).
pub fn run(state: &mut SessionState, session_id: &str) -> (r: bool)
    requires
        old(state).task_completions < u32::MAX,
    ensures
        r == (session_id@.len() > 0),
        r ==> *final(state) == (SessionState {
            task_completions: (old(state).task_completions + 1) as u32,
            ..*old(state)
        }),
        !r ==> *final(state) == *old(state),
{
    if session_id.is_empty() {
        return false;
    }
    state.task_completions = state.task_completions + 1;
    true
}

} // verus!
