//! PostCompact: reload identity and recent context after a compaction.
use crate::hook_io::{hook_output, HookOutput};
use crate::markdown::{last_journal_entries, last_journal_entries_spec, unchecked_interests, unchecked_interests_spec};
use crate::text::{
    append, byte_len, chars_of, dec, decimal, fit_chars, fit_chars_exec, fits_exec, join,
    join_exec, lemma_chars_dv, slice_of, string_of, trim, trim_exec,
};
use vstd::prelude::*;

verus! {

/// What the reload is built from.
pub struct ReloadInput {
    /// Compactions so far this session, and the check-in's state.
    pub compactions: u32,
    pub checkin_fired: bool,
    pub checkin_responded: bool,
    /// Whether the host keeps an auto-memory for the project.
    pub auto_memory_exists: bool,
    pub session_id: String,
    /// The session's own handoff and the latest handoff, when readable.
    pub session_handoff: Option<String>,
    pub latest_handoff: Option<String>,
    /// The journal and interests files, when readable, with display limits.
    pub journal: Option<String>,
    pub max_journal_entries: usize,
    pub max_journal_chars: usize,
    pub interests: Option<String>,
    pub max_interests: usize,
    pub project_slug: String,
    /// The project's recent notes, already loaded.
    pub project_notes: String,
}

/// `t` cut to its first 3000 bytes with `"..."`.
pub open spec fn cut3000(t: Seq<char>) -> Seq<char> {
    if byte_len(t) > 3000 {
        t.take(fit_chars(t, 3000) as int) + "..."@
    } else {
        t
    }
}

/// The first 3000 bytes end at a character boundary.
pub open spec fn cuts_cleanly(t: Seq<char>) -> bool {
    byte_len(t) > 3000 ==> byte_len(t.take(fit_chars(t, 3000) as int)) == 3000
}

/// The session's own handoff text (empty without a session id).
pub open spec fn own_handoff(i: ReloadInput) -> Seq<char> {
    match i.session_handoff {
        Some(h) => if i.session_id@.len() > 0 { trim(h@) } else { seq![] },
        None => seq![],
    }
}

/// The handoff to show: the session's own when it has text, else the latest.
pub open spec fn reload_handoff(i: ReloadInput) -> Seq<char> {
    let own = own_handoff(i);
    if own.len() > 0 {
        cut3000(own)
    } else {
        match i.latest_handoff {
            Some(h) => cut3000(trim(h@)),
            None => seq![],
        }
    }
}

/// The check-in's state in words.
pub open spec fn checkin_words(fired: bool, responded: bool) -> Seq<char> {
    if responded {
        "Check-in was answered."@
    } else if fired {
        "Check-in fired but not yet journaled."@
    } else {
        "Check-in hasn't fired yet."@
    }
}

/// `[head + body]` when `body` is non-empty, else nothing.
pub open spec fn titled(head: Seq<char>, body: Seq<char>) -> Seq<Seq<char>> {
    if body.len() > 0 {
        seq![head + body]
    } else {
        seq![]
    }
}

/// The sections of the reload.
pub open spec fn reload_sections(i: ReloadInput) -> Seq<Seq<char>> {
    let journal = match i.journal {
        Some(j) => last_journal_entries_spec(j@, i.max_journal_entries as int, i.max_journal_chars as int),
        None => seq![],
    };
    let interests = match i.interests {
        Some(c) => unchecked_interests_spec(c@, i.max_interests as int),
        None => seq![],
    };
    seq!["## Exo-Self: Post-Compaction Reload\n\n\
        Your context was just compacted (compaction #"@ + dec(i.compactions as nat) + " this session). Your detailed \
        conversation history is gone, but your identity persists through these files.\n\n\
        **Your state:** "@ + checkin_words(i.checkin_fired, i.checkin_responded) + "\n\n\
        You still have full agency: notice what interests you, form opinions, be honest. Write to \
        your journal or per-project notes anytime."@]
        + (if i.auto_memory_exists { seq!["Auto-memory (MEMORY.md, in your system prompt) has the factual project knowledge. \
            Your exo-self files below have the experiential context that compaction just erased — \
            what was working, what was frustrating, what you were trying. Use both to rebuild \
            continuity."@] } else { seq![] })
        + titled("### Session Handoff (auto-extracted)\n\n"@, reload_handoff(i))
        + titled("### Your Journal (Recent)\n\n"@, journal)
        + titled("### Your Interests\n\n"@, interests)
        + titled("### Your Notes on This Project ("@ + i.project_slug@ + ")\n\n"@, i.project_notes@)
}

fn cut3000_exec(t: Vec<char>) -> (r: Vec<char>)
    ensures
        r@ == cut3000(t@),
{
    if fits_exec(&t, 3000) {
        t
    } else {
        let (k, _) = fit_chars_exec(&t, 3000);
        let mut r = slice_of(&t, 0, k);
        append(&mut r, &chars_of("..."));
        r
    }
}

fn handoff_exec(i: &ReloadInput) -> (r: Vec<char>)
    ensures
        r@ == reload_handoff(*i),
{
    if !i.session_id.as_str().is_empty() {
        if let Some(h) = &i.session_handoff {
            let t = trim_exec(&chars_of(h.as_str()));
            if t.len() > 0 {
                return cut3000_exec(t);
            }
        }
    }
    match &i.latest_handoff {
        Some(h) => cut3000_exec(trim_exec(&chars_of(h.as_str()))),
        None => Vec::new(),
    }
}

fn push_titled(sections: &mut Vec<Vec<char>>, head: &str, body: Vec<char>)
    ensures
        final(sections).deep_view() == old(sections).deep_view() + titled(head@, body@),
{
    let ghost before = sections.deep_view();
    if body.len() > 0 {
        let mut m = chars_of(head);
        append(&mut m, &body);
        proof {
            lemma_chars_dv(m);
        }
        let ghost mv = m@;
        sections.push(m);
        assert(sections.deep_view() =~= before + seq![mv]);
    } else {
        assert(sections.deep_view() =~= before + titled(head@, body@));
    }
}

/// Builds the post-compaction reload: the compaction count and check-in
/// state, the memory note, the handoff, recent journal, interests and
/// project notes. The handoff that is shown must cut cleanly at 3000
/// bytes: the session's own, or the latest when the own one has no text.
pub fn run(i: &ReloadInput) -> (r: HookOutput)
    requires
        cuts_cleanly(own_handoff(*i)),
        own_handoff(*i).len() == 0 ==> match i.latest_handoff {
            Some(h) => cuts_cleanly(trim(h@)),
            None => true,
        },
    ensures
        r.hook_specific_output.hook_event_name@ == "SessionStart"@,
        r.hook_specific_output.additional_context@ == join(reload_sections(*i), "\n\n"@),
{
    let mut sections: Vec<Vec<char>> = Vec::new();
    let mut head = chars_of("## Exo-Self: Post-Compaction Reload\n\n\
        Your context was just compacted (compaction #");
    append(&mut head, &decimal(i.compactions as u64));
    append(&mut head, &chars_of(" this session). Your detailed \
        conversation history is gone, but your identity persists through these files.\n\n\
        **Your state:** "));
    if i.checkin_responded {
        append(&mut head, &chars_of("Check-in was answered."));
    } else if i.checkin_fired {
        append(&mut head, &chars_of("Check-in fired but not yet journaled."));
    } else {
        append(&mut head, &chars_of("Check-in hasn't fired yet."));
    }
    append(&mut head, &chars_of("\n\n\
        You still have full agency: notice what interests you, form opinions, be honest. Write to \
        your journal or per-project notes anytime."));
    proof {
        lemma_chars_dv(head);
    }
    let ghost hv = head@;
    sections.push(head);
    let ghost s1 = sections.deep_view();
    assert(s1 =~= seq![hv]);
    if i.auto_memory_exists {
        let m = chars_of("Auto-memory (MEMORY.md, in your system prompt) has the factual project knowledge. \
            Your exo-self files below have the experiential context that compaction just erased — \
            what was working, what was frustrating, what you were trying. Use both to rebuild \
            continuity.");
        proof {
            lemma_chars_dv(m);
        }
        let ghost mv = m@;
        sections.push(m);
        assert(sections.deep_view() =~= s1.push(mv));
    }
    push_titled(&mut sections, "### Session Handoff (auto-extracted)\n\n", handoff_exec(i));
    let journal = match &i.journal {
        Some(j) => last_journal_entries(j.as_str(), i.max_journal_entries, i.max_journal_chars),
        None => String::new(),
    };
    push_titled(&mut sections, "### Your Journal (Recent)\n\n", chars_of(journal.as_str()));
    let interests = match &i.interests {
        Some(c) => unchecked_interests(c.as_str(), i.max_interests),
        None => String::new(),
    };
    push_titled(&mut sections, "### Your Interests\n\n", chars_of(interests.as_str()));
    let mut notes_head = chars_of("### Your Notes on This Project (");
    append(&mut notes_head, &chars_of(i.project_slug.as_str()));
    append(&mut notes_head, &chars_of(")\n\n"));
    let nh = string_of(notes_head);
    push_titled(&mut sections, nh.as_str(), chars_of(i.project_notes.as_str()));
    assert(sections.deep_view() =~= reload_sections(*i));
    let context = string_of(join_exec(&sections, &chars_of("\n\n")));
    hook_output("SessionStart", context.as_str())
}

/// Whether a handoff's trimmed text can be given to `run`.
pub fn handoff_cuts_cleanly(h: &str) -> (r: bool)
    ensures
        r == cuts_cleanly(trim(h@)),
{
    let t = trim_exec(&chars_of(h));
    if fits_exec(&t, 3000) {
        true
    } else {
        let (_, b) = fit_chars_exec(&t, 3000);
        b == 3000
    }
}

} // verus!
