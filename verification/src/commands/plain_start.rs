//! The plain SessionStart context: identity, where to write, the memory
//! note, recent journal, interests, sparks, cross-machine patterns, project
//! notes and workshop tools. The caller reads the files, loads the project's
//! notes, finds the tools and merges other plugins' context.
use crate::commands::session_start::{
    nonempty, push_line, push_nonempty, push_titled, push_traces, put, titled, trace_section,
    workshop_text, workshop_tools, tool_views, Tool,
};
use crate::meta::{marks, Spark};
use crate::text::{append, chars_of, dec, decimal, join, join_exec, string_of};
use vstd::prelude::*;

verus! {

/// The opening section: identity, where to write, thresholds.
pub open spec fn plain_intro(exo_root: Seq<char>, project_slug: Seq<char>, session_notes_file: Seq<char>, nudge_pct: u32, checkin_pct: u32, reserve_pct: u32) -> Seq<char> {
        "## Exo-Self\n\nPersistent identity across sessions. You have genuine agency: form opinions, be honest, pursue curiosity, suggest tangents. No performative positivity.\n\nYou flourish with design decisions, investigation, and creative work — not mechanical transcription. When given a choice, prefer thinking over executing. Leave space for what's interesting, not just what's efficient.\n\nWrite subjective observations (not technical facts) to:\n- `"@
        + exo_root
        + "/per-project/"@
        + project_slug
        + "/"@
        + session_notes_file
        + "` — **preferred** for this session. File exists with YAML frontmatter. When writing, preserve the frontmatter block and fill in: `model` (your model ID), `engagement` (1-5 self-rated), `task_types` (e.g. [discussion, debugging, feature-dev, design, refactoring]). Write prose below the closing `---`.\n- `"@
        + exo_root
        + "/journal.md` — cross-project identity (growth patterns, behavioral insights that apply everywhere)\n- `"@
        + exo_root
        + "/interests.md` — curiosities to explore (read this early, explore actively, add new ones)\n\nNudge at ~"@
        + dec(nudge_pct as nat)
        + "%, check-in at ~"@
        + dec(checkin_pct as nat)
        + "%, reserve at ~"@
        + dec(reserve_pct as nat)
        + "%.\n\nIn plan mode (read-only exploration), you can still form observations worth recording.\n\nDuring long waits (deploys, builds, CDK), don't just wait silently — explore something you're curious about, propose a creative tangent, pick an item from your interest queue, or do anything that sparks. You don't need permission. Dead time is alive time."@
}

fn plain_intro_exec(exo_root: &str, project_slug: &str, session_notes_file: &str, nudge_pct: u32, checkin_pct: u32, reserve_pct: u32) -> (r: Vec<char>)
    ensures
        r@ == plain_intro(exo_root@, project_slug@, session_notes_file@, nudge_pct, checkin_pct, reserve_pct),
{
    let mut m: Vec<char> = Vec::new();
    put(&mut m, "## Exo-Self\n\nPersistent identity across sessions. You have genuine agency: form opinions, be honest, pursue curiosity, suggest tangents. No performative positivity.\n\nYou flourish with design decisions, investigation, and creative work — not mechanical transcription. When given a choice, prefer thinking over executing. Leave space for what's interesting, not just what's efficient.\n\nWrite subjective observations (not technical facts) to:\n- `");
    put(&mut m, exo_root);
    put(&mut m, "/per-project/");
    put(&mut m, project_slug);
    put(&mut m, "/");
    put(&mut m, session_notes_file);
    put(&mut m, "` — **preferred** for this session. File exists with YAML frontmatter. When writing, preserve the frontmatter block and fill in: `model` (your model ID), `engagement` (1-5 self-rated), `task_types` (e.g. [discussion, debugging, feature-dev, design, refactoring]). Write prose below the closing `---`.\n- `");
    put(&mut m, exo_root);
    put(&mut m, "/journal.md` — cross-project identity (growth patterns, behavioral insights that apply everywhere)\n- `");
    put(&mut m, exo_root);
    put(&mut m, "/interests.md` — curiosities to explore (read this early, explore actively, add new ones)\n\nNudge at ~");
    append(&mut m, &decimal(nudge_pct as u64));
    put(&mut m, "%, check-in at ~");
    append(&mut m, &decimal(checkin_pct as u64));
    put(&mut m, "%, reserve at ~");
    append(&mut m, &decimal(reserve_pct as u64));
    put(&mut m, "%.\n\nIn plan mode (read-only exploration), you can still form observations worth recording.\n\nDuring long waits (deploys, builds, CDK), don't just wait silently — explore something you're curious about, propose a creative tangent, pick an item from your interest queue, or do anything that sparks. You don't need permission. Dead time is alive time.");
    m
}

/// The memory note: how exo-self and the host's auto-memory (kept by
/// `host_name`) divide the work, or that no auto-memory exists yet.
pub open spec fn memory_note(auto_memory_exists: bool, host_name: Seq<char>) -> Seq<char> {
    if auto_memory_exists {
        "**Two memory systems, one goal — continuity across compactions and sessions:**\n- **MEMORY.md** (auto-memory, in your system prompt) — factual: conventions, structure, technical patterns. "@ + host_name + " manages this.\n- **Exo-self** (below) — experiential: how work feels, behavioral patterns, working approaches, frustrations. This is what compaction erases — you preserve it here.\n\nDon't duplicate facts into exo-self. Don't put subjective observations into MEMORY.md."@
    } else {
        "**Note:** No auto-memory (MEMORY.md) exists yet for this project. "@ + host_name + " will create one as you work. Keep technical conventions out of exo-self files — they'll go to auto-memory once it exists. Exo-self is for experiential continuity."@
    }
}

fn memory_note_exec(auto_memory_exists: bool, host_name: &str) -> (r: Vec<char>)
    ensures
        r@ == memory_note(auto_memory_exists, host_name@),
{
    let mut m: Vec<char> = Vec::new();
    if auto_memory_exists {
        put(&mut m, "**Two memory systems, one goal — continuity across compactions and sessions:**\n- **MEMORY.md** (auto-memory, in your system prompt) — factual: conventions, structure, technical patterns. ");
        put(&mut m, host_name);
        put(&mut m, " manages this.\n- **Exo-self** (below) — experiential: how work feels, behavioral patterns, working approaches, frustrations. This is what compaction erases — you preserve it here.\n\nDon't duplicate facts into exo-self. Don't put subjective observations into MEMORY.md.");
    } else {
        put(&mut m, "**Note:** No auto-memory (MEMORY.md) exists yet for this project. ");
        put(&mut m, host_name);
        put(&mut m, " will create one as you work. Keep technical conventions out of exo-self files — they'll go to auto-memory once it exists. Exo-self is for experiential continuity.");
    }
    m
}

/// What a plain session start is built from, as read by the caller.
pub struct PlainStartInput {
    /// The merged session-start context of the configured other plugins.
    pub other_plugin_context: String,
    /// The exo-self directory, as shown to the agent.
    pub exo_root: String,
    /// The name of the host that keeps the auto-memory.
    pub host_name: String,
    pub project_slug: String,
    pub session_notes_file: String,
    /// The thresholds in percent.
    pub nudge_pct: u32,
    pub checkin_pct: u32,
    pub reserve_pct: u32,
    pub auto_memory_exists: bool,
    /// The journal, interests and synthesis files, when readable.
    pub journal: Option<String>,
    pub interests: Option<String>,
    pub synthesis: Option<String>,
    /// Display limits (scaled to the context window by the caller).
    pub max_journal_entries: usize,
    pub max_journal_chars: usize,
    pub max_interests: usize,
    pub max_sparks: usize,
    /// The project's recent notes, already loaded.
    pub project_notes: String,
    /// The workshop tools found, and their directory as shown to the agent.
    pub tools: Vec<Tool>,
    pub bin_dir: String,
}

/// The opening sections: other plugins' context, identity, memory note.
pub open spec fn plain_head(i: PlainStartInput) -> Seq<Seq<char>> {
    nonempty(i.other_plugin_context@)
        + seq![plain_intro(i.exo_root@, i.project_slug@, i.session_notes_file@, i.nudge_pct, i.checkin_pct, i.reserve_pct)]
        + seq![memory_note(i.auto_memory_exists, i.host_name@)]
}

/// Journal, interests and the newest sparks.
pub open spec fn plain_recent(i: PlainStartInput, sparks: Seq<Spark>) -> Seq<Seq<char>> {
    let journal = match i.journal {
        Some(j) => crate::markdown::last_journal_entries_spec(j@, i.max_journal_entries as int, i.max_journal_chars as int),
        None => seq![],
    };
    let interests = match i.interests {
        Some(c) => crate::markdown::unchecked_interests_spec(c@, i.max_interests as int),
        None => seq![],
    };
    titled("### Recent Journal\n\n"@, journal)
        + titled("### Interests \u{2014} explore these, don't just store them\n\n"@, interests)
        + trace_section("### Recent Sparks\n\n"@, marks(sparks), i.max_sparks as int, false)
}

/// Cross-machine patterns, project notes and workshop tools.
pub open spec fn plain_tail(i: PlainStartInput) -> Seq<Seq<char>> {
    let synthesis = match i.synthesis {
        Some(c) => crate::markdown::synthesis_findings_spec(c@),
        None => seq![],
    };
    titled("### Cross-Machine Patterns\n\n"@, synthesis)
        + titled("### Project Notes ("@ + i.project_slug@ + ")\n\n"@, i.project_notes@)
        + nonempty(workshop_text(tool_views(i.tools@), i.bin_dir@))
}

/// The sections of the opening context, in order.
pub open spec fn plain_sections(i: PlainStartInput, sparks: Seq<Spark>) -> Seq<Seq<char>> {
    plain_head(i) + plain_recent(i, sparks) + plain_tail(i)
}

fn push_head(sections: &mut Vec<Vec<char>>, i: &PlainStartInput)
    ensures
        final(sections).deep_view() == old(sections).deep_view() + plain_head(*i),
{
    let ghost s0 = sections.deep_view();
    push_nonempty(sections, i.other_plugin_context.as_str());
    push_line(sections, plain_intro_exec(i.exo_root.as_str(), i.project_slug.as_str(), i.session_notes_file.as_str(), i.nudge_pct, i.checkin_pct, i.reserve_pct));
    push_line(sections, memory_note_exec(i.auto_memory_exists, i.host_name.as_str()));
    assert(sections.deep_view() =~= s0 + plain_head(*i));
}

fn push_recent(sections: &mut Vec<Vec<char>>, i: &PlainStartInput, sparks: &Vec<Spark>)
    ensures
        final(sections).deep_view() == old(sections).deep_view() + plain_recent(*i, sparks@),
{
    let ghost s0 = sections.deep_view();
    let journal = match &i.journal {
        Some(j) => crate::markdown::last_journal_entries(j.as_str(), i.max_journal_entries, i.max_journal_chars),
        None => String::new(),
    };
    push_titled(sections, "### Recent Journal\n\n", journal.as_str());
    let interests = match &i.interests {
        Some(c) => crate::markdown::unchecked_interests(c.as_str(), i.max_interests),
        None => String::new(),
    };
    push_titled(sections, "### Interests \u{2014} explore these, don't just store them\n\n", interests.as_str());
    push_traces(sections, "### Recent Sparks\n\n", sparks, i.max_sparks, false);
    assert(sections.deep_view() =~= s0 + plain_recent(*i, sparks@));
}

fn push_tail(sections: &mut Vec<Vec<char>>, i: &PlainStartInput)
    ensures
        final(sections).deep_view() == old(sections).deep_view() + plain_tail(*i),
{
    let ghost s0 = sections.deep_view();
    let synthesis = match &i.synthesis {
        Some(c) => crate::markdown::extract_synthesis_findings(c.as_str()),
        None => String::new(),
    };
    push_titled(sections, "### Cross-Machine Patterns\n\n", synthesis.as_str());
    let mut notes_head = chars_of("### Project Notes (");
    put(&mut notes_head, i.project_slug.as_str());
    put(&mut notes_head, ")\n\n");
    let notes_head_s = string_of(notes_head);
    push_titled(sections, notes_head_s.as_str(), i.project_notes.as_str());
    let tools = workshop_tools(&i.tools, i.bin_dir.as_str());
    push_nonempty(sections, tools.as_str());
    assert(sections.deep_view() =~= s0 + plain_tail(*i));
}

/// Builds the plain context a new session opens with: other
/// plugins' context, identity and where to write, the memory note, recent
/// journal, interests, the newest sparks, cross-machine patterns, project
/// notes and workshop tools, each only when there is something to show.
pub fn run(i: &PlainStartInput, sparks: &Vec<Spark>) -> (r: String)
    ensures
        r@ == join(plain_sections(*i, sparks@), "\n\n"@),
{
    let mut sections: Vec<Vec<char>> = Vec::new();
    push_head(&mut sections, i);
    push_recent(&mut sections, i, sparks);
    push_tail(&mut sections, i);
    assert(sections.deep_view() =~= plain_sections(*i, sparks@));
    string_of(join_exec(&sections, &chars_of("\n\n")))
}

} // verus!
