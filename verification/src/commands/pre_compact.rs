//! PreCompact: name the handoff to extract and count the compaction.
use crate::state::SessionState;
use crate::text::{append, chars_of, dec, decimal, string_of};
use vstd::prelude::*;

verus! {

/// The name the handoff is saved under: the session id, or `latest`.
pub fn handoff_name(session_id: &str) -> (r: String)
    ensures
        r@ == (if session_id@.len() == 0 {
            "latest"@
        } else {
            session_id@
        }),
{
    if session_id.is_empty() {
        "latest".to_owned()
    } else {
        session_id.to_owned()
    }
}

/// Counts a compaction and records what triggered it (the caller stamps
/// its time).
pub fn run(state: &mut SessionState, trigger: &str)
    requires
        old(state).compactions < u32::MAX,
    ensures
        final(state).compactions == old(state).compactions + 1,
        final(state).last_compaction_trigger@ == trigger@,
        *final(state) == (SessionState {
            compactions: final(state).compactions,
            last_compaction_trigger: final(state).last_compaction_trigger,
            ..*old(state)
        }),
{
    state.compactions = state.compactions + 1;
    state.last_compaction_trigger = trigger.to_owned();
}

/// The note shown before a compaction: its number, its trigger (`unknown`
/// when none was given) and where the handoff was saved.
pub open spec fn compaction_notice_text(compactions: nat, trigger: Seq<char>, handoffs_dir: Seq<char>) -> Seq<char> {
    "## Exo-Self: Pre-Compaction (#"@ + dec(compactions) + ", "@ + (if trigger.len() == 0 {
        "unknown"@
    } else {
        trigger
    }) + ")\n\nSession handoff has been **automatically saved** to `"@ + handoffs_dir
        + "`.\n\nIf you have subjective observations worth preserving (how the work felt, patterns you noticed, things that surprised you), write them to `journal.md` now. Otherwise, carry on \u{2014} your next instance will have the factual context."@
}

/// Writes the note shown before a compaction.
pub fn compaction_notice(compactions: u32, trigger: &str, handoffs_dir: &str) -> (r: String)
    ensures
        r@ == compaction_notice_text(compactions as nat, trigger@, handoffs_dir@),
{
    let mut m = chars_of("## Exo-Self: Pre-Compaction (#");
    append(&mut m, &decimal(compactions as u64));
    append(&mut m, &chars_of(", "));
    if trigger.is_empty() {
        append(&mut m, &chars_of("unknown"));
    } else {
        append(&mut m, &chars_of(trigger));
    }
    append(&mut m, &chars_of(")\n\nSession handoff has been **automatically saved** to `"));
    append(&mut m, &chars_of(handoffs_dir));
    append(&mut m, &chars_of("`.\n\nIf you have subjective observations worth preserving (how the work felt, patterns you noticed, things that surprised you), write them to `journal.md` now. Otherwise, carry on \u{2014} your next instance will have the factual context."));
    string_of(m)
}

} // verus!
