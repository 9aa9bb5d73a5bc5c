//! TeammateIdle. `run` says nothing: the host accepts no injected context on
//! this event, and teammates are briefed when they start. `idle_briefing`
//! is the plain briefing for an idle teammate: the newest project note, or
//! else the latest journal entry.
use crate::hook_io::HookOutput;
use crate::text::{append, chars_of, fit_chars, fit_chars_exec, slice_of, string_of, trim, trim_exec};
use vstd::prelude::*;

verus! {

/// Says nothing: the caller prints the empty output.
pub fn run() -> (r: Option<HookOutput>)
    ensures
        r is None,
{
    None
}

/// A note's trimmed text, cut to its first `max_chars` bytes and marked
/// with `...` when longer.
pub open spec fn note_snippet_text(content: Seq<char>, max_chars: int) -> Seq<char> {
    let t = trim(content);
    if fit_chars(t, max_chars) < t.len() {
        t.take(fit_chars(t, max_chars) as int) + "..."@
    } else {
        t
    }
}

/// The snippet of the newest project note.
pub fn note_snippet(content: &str, max_chars: usize) -> (r: String)
    ensures
        r@ == note_snippet_text(content@, max_chars as int),
{
    let t = trim_exec(&chars_of(content));
    let (k, _) = fit_chars_exec(&t, max_chars);
    if k < t.len() {
        let mut s = slice_of(&t, 0, k);
        append(&mut s, &chars_of("..."));
        string_of(s)
    } else {
        string_of(t)
    }
}

/// What an idle teammate is told: who it is, then the project observations
/// so far when there are any, or else the latest journal entry.
pub open spec fn idle_briefing_text(notes_snippet: Seq<char>, last_entry: Seq<char>) -> Seq<char> {
    "You are part of an Agent Team with exo-self \u{2014} persistent experiential identity across sessions. You share agency with the team lead: notice what interests you, be honest, form opinions. If you observe patterns worth remembering (frustrations, insights, what worked), mention them so the lead can save them to exo-self files."@
        + if notes_snippet.len() > 0 {
        "\n\nProject observations so far:\n"@ + notes_snippet
    } else if last_entry.len() > 0 {
        "\n\nLatest journal entry:\n"@ + last_entry
    } else {
        seq![]
    }
}

/// Briefs an idle teammate.
pub fn idle_briefing(notes_snippet: &str, last_entry: &str) -> (r: String)
    ensures
        r@ == idle_briefing_text(notes_snippet@, last_entry@),
{
    let mut m = chars_of(
        "You are part of an Agent Team with exo-self \u{2014} persistent experiential identity across sessions. You share agency with the team lead: notice what interests you, be honest, form opinions. If you observe patterns worth remembering (frustrations, insights, what worked), mention them so the lead can save them to exo-self files.",
    );
    let ghost head = m@;
    if !notes_snippet.is_empty() {
        append(&mut m, &chars_of("\n\nProject observations so far:\n"));
        append(&mut m, &chars_of(notes_snippet));
    } else if !last_entry.is_empty() {
        append(&mut m, &chars_of("\n\nLatest journal entry:\n"));
        append(&mut m, &chars_of(last_entry));
    } else {
        assert(m@ =~= head + Seq::<char>::empty());
    }
    string_of(m)
}

} // verus!
