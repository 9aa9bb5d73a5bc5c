use exo_self::commands::extract_handoff::{extract, Block, TranscriptEntry};
use exo_self::commands::session_end::MetaTraces;
use exo_self::commands::session_start::{
    digest_hint, get_tool_description, handoff_section, is_workshop_tool, recurring_frictions,
    scout_section, session_notes_file, stale_binary_warning, workshop_tools, Tool,
};
use exo_self::commands::subagent_start::{
    self, build_project_briefing, compact_frictions, load_latest_handoff, SubagentInput,
};
use exo_self::markdown::split_frontmatter;
use exo_self::meta::{Aversion, Friction, Lesson};
use exo_self::project::{load_recent_notes, NoteFile};

fn friction(text: &str, category: &str, project: &str) -> Friction {
    Friction {
        text: text.to_string(),
        category: category.to_string(),
        project: project.to_string(),
        timestamp: String::new(),
        session_id: String::new(),
    }
}

fn lesson(text: &str, project: &str) -> Lesson {
    Lesson { text: text.to_string(), project: project.to_string(), timestamp: String::new(), session_id: String::new() }
}

fn meta() -> MetaTraces {
    MetaTraces {
        sparks: Vec::new(),
        opinions: Vec::new(),
        lessons: vec![lesson("old lesson", "p"), lesson("other project", "q"), lesson("new lesson", "p")],
        frictions: vec![
            friction("a", "test_iteration", "p"),
            friction("b", "build_failure", "p"),
            friction("c", "test_iteration", "p"),
            friction("d", "build_failure", "q"),
        ],
        aversions: vec![Aversion {
            text: "busywork".to_string(),
            project: "p".to_string(),
            timestamp: String::new(),
            session_id: String::new(),
        }],
        surprises: Vec::new(),
    }
}

#[test]
fn friction_summary_for_project() {
    let m = meta();
    assert_eq!(compact_frictions(&m.frictions, "p"), "**Friction patterns:** test iteration (2x)");
    assert_eq!(compact_frictions(&m.frictions, "q"), "");
}

#[test]
fn project_briefing() {
    let m = meta();
    assert_eq!(
        build_project_briefing(&m, "p", 800),
        "### Project Briefing (p)\n\n**Lessons learned:**\n- new lesson\n- old lesson\n\
         **Friction patterns:** test iteration (2x)\n**Avoid:**\n- busywork"
    );
    assert_eq!(build_project_briefing(&m, "", 800), "");
    assert_eq!(build_project_briefing(&m, "zzz", 800), "");
    let short = build_project_briefing(&m, "p", 30);
    assert_eq!(short, "### Project Briefing (p)\n\n*...");
    assert!(short.len() <= 30);
}

#[test]
fn handoff_working_direction() {
    let h = "# Handoff\n\n## Working Direction\n\nFinish the parser.\n\n## Discoveries\n\n- x";
    assert_eq!(load_latest_handoff(Some(h), 400), "Finish the parser.");
    assert_eq!(load_latest_handoff(Some("  just text  "), 400), "just text");
    assert_eq!(load_latest_handoff(None, 400), "");
    assert_eq!(load_latest_handoff(Some("abcdefghij"), 8), "abcde...");
}

#[test]
fn subagents_get_identity_or_scouting() {
    let m = meta();
    let worker = SubagentInput {
        agent_type: "Explore".to_string(),
        slug: "p".to_string(),
        journal: None,
        latest_handoff: Some("## Working Direction\nShip it".to_string()),
        scout_path: "/x/scout.md".to_string(),
    };
    let out = subagent_start::run(&worker, &m);
    let ctx = out.hook_specific_output.additional_context;
    assert_eq!(out.hook_specific_output.hook_event_name, "SubagentStart");
    assert!(ctx.starts_with("You are part of an ongoing cognitive ecology. You have agency"));
    assert!(ctx.contains("### Project Briefing (p)"));
    assert!(ctx.ends_with("### Current Session Context\n\nShip it"));
    let plan = SubagentInput { agent_type: "PLAN".to_string(), ..worker };
    let ctx = subagent_start::run(&plan, &m).hook_specific_output.additional_context;
    assert!(ctx.starts_with("## Scout Mode (redirected from plan mode)"));
    assert!(ctx.contains("write your report to: `/x/scout.md`"));
}

#[test]
fn handoff_from_transcript() {
    let entries = vec![
        TranscriptEntry::User(vec!["  Please fix the bug  ".to_string()]),
        TranscriptEntry::User(vec!["<system-reminder>ignore</system-reminder>".to_string()]),
        TranscriptEntry::Assistant(vec![
            Block::Text("**Spark** \u{2014} parsers are fun\n- still need to add the tests for this".to_string()),
            Block::ToolUse { name: "Edit".to_string(), file_path: Some("src/b.rs".to_string()) },
            Block::ToolUse { name: "Write".to_string(), file_path: Some("src/a.rs".to_string()) },
            Block::ToolUse { name: "Read".to_string(), file_path: Some("src/c.rs".to_string()) },
            Block::ToolUse { name: "Edit".to_string(), file_path: Some("src/a.rs".to_string()) },
        ]),
        TranscriptEntry::Other,
    ];
    let out = extract(&entries, 3000);
    assert_eq!(
        out,
        "## Working Direction\n\n**Spark** \u{2014} parsers are fun\n- still need to add the tests for this\n\n\
         ## Discoveries\n\n- Spark: parsers are fun\n\n\
         ## Unfinished Threads\n\n- - still need to add the tests for this\n\n\
         ## User Requests\n\n- Please fix the bug\n\n\
         ## Files Modified (2)\n\n- src/a.rs\n- src/b.rs"
    );
    assert_eq!(extract(&Vec::new(), 3000), "");
    assert!(extract(&entries, 20).len() <= 20);
}

#[test]
fn handoff_insights_and_hypotheses() {
    let text = "\u{2605} Insight \u{2500}\u{2500}\u{2500}\u{2500}\nCaching hides the race.\n\u{2500}\u{2500}\u{2500}\u{2500}\nI think the issue is the lock ordering here.";
    let entries = vec![TranscriptEntry::Assistant(vec![Block::Text(text.to_string())])];
    let out = extract(&entries, 3000);
    assert!(out.contains("## Discoveries\n\n- Caching hides the race."));
    assert!(out.contains("## Working Hypotheses\n\n- I think the issue is the lock ordering here."));
}

#[test]
fn recurring_friction_summary() {
    let fr = vec![
        friction("a", "test_iteration", "p"),
        friction("b", "test_iteration", "q"),
        friction("c", "build_failure", "p"),
        friction("latest example", "test_iteration", "p"),
    ];
    assert_eq!(
        recurring_frictions(&fr),
        "- **test iteration** (3x across p, q): \"latest example\""
    );
    assert_eq!(recurring_frictions(&Vec::new()), "");
}

#[test]
fn session_start_pieces() {
    assert_eq!(session_notes_file("2026-01-02", "abcdef123456"), "2026-01-02--abcdef12.md");
    assert_eq!(session_notes_file("d", "abc"), "d--abc.md");
    assert_eq!(digest_hint(true, 5, 0).unwrap(), "**Digest stale** \u{2014} 5 new session notes since the last `_digest.md`. Running `/exo digest` would refresh the rolling synthesis and restore the digest as the load-bearing summary for older history.");
    assert!(digest_hint(true, 4, 100).is_none());
    assert!(digest_hint(false, 0, 25).unwrap().starts_with("**No digest yet** \u{2014} this project has 25 session notes"));
    assert!(digest_hint(false, 0, 24).is_none());
    assert_eq!(scout_section("   "), "");
    assert!(scout_section("findings").ends_with("trust your tools.\n\nfindings"));
    let long = "x".repeat(5000);
    assert!(scout_section(&long).ends_with("...\n\n*(scout report truncated)*"));
    assert!(handoff_section(&"y".repeat(3000)).ends_with(&format!("{}...", "y".repeat(2400))));
    assert!(stale_binary_warning("abc123").contains("(`abc123`)"));
}

#[test]
fn workshop_tool_listing() {
    assert!(!is_workshop_tool("exo-self"));
    assert!(!is_workshop_tool(".hidden"));
    assert!(is_workshop_tool("grepx"));
    assert_eq!(get_tool_description(Some("Usage: t [opts]\n\n  Finds things fast\n-h help")), "Finds things fast");
    assert_eq!(get_tool_description(Some("Usage: only")), "no description available");
    assert_eq!(get_tool_description(None), "no description available");
    let tools = vec![
        Tool { name: "zeta".to_string(), description: "last".to_string() },
        Tool { name: "alpha".to_string(), description: "first".to_string() },
    ];
    assert_eq!(
        workshop_tools(&tools, "~/h/bin"),
        "### Workshop Tools (~/h/bin/)\n\nThese are Rust CLI tools built from friction patterns. Use them proactively:\n\
         - **`alpha`** \u{2014} first\n- **`zeta`** \u{2014} last\n\nRun any tool with `~/h/bin/<name>` or `~/h/bin/<name> --help` for full usage."
    );
    assert_eq!(workshop_tools(&Vec::new(), "b"), "");
}

#[test]
fn frontmatter_is_split_from_prose() {
    let (fm, prose) = split_frontmatter("---\ndate: \"2026\"\n---\n\n\nBody text");
    assert_eq!(fm.as_deref(), Some("date: \"2026\""));
    assert_eq!(prose, "Body text");
    let (fm, prose) = split_frontmatter("No frontmatter");
    assert!(fm.is_none());
    assert_eq!(prose, "No frontmatter");
    let (fm, prose) = split_frontmatter("---\nunclosed");
    assert!(fm.is_none());
    assert_eq!(prose, "---\nunclosed");
}

fn note(date: &str, prose: &str) -> NoteFile {
    NoteFile { content: format!("---\ndate: \"{date}\"\n---\n\n{prose}\n"), date: date.to_string() }
}

#[test]
fn recent_notes_are_tiered() {
    // Newest first.
    let notes = vec![
        note("2026-05-12", "Latest narrative here.\n\n**Opinion** \u{2014} Fresh take."),
        note("2026-05-10", "Second-newest narrative.\n\nNo markers in this one."),
        note(
            "2026-04-20",
            "Old chatter that should drop.\n\n**Surprise** \u{2014} Important wrong-map.\n\nMore chatter.\n\n**Opinion** \u{2014} Worth surfacing.",
        ),
        note("2026-03-01", "Ancient chatter.\n\nNo markers anywhere."),
    ];
    let out = load_recent_notes(None, None, &notes, 6000);
    assert!(out.contains("Latest narrative here."));
    assert!(out.contains("No markers in this one."));
    assert!(out.contains("**Surprise** \u{2014} Important wrong-map."));
    assert!(out.contains("**Opinion** \u{2014} Worth surfacing."));
    assert!(!out.contains("Old chatter that should drop."));
    assert!(!out.contains("More chatter."));
    assert!(!out.contains("Ancient chatter."));
    assert!(out.starts_with("**2026-05-12**\n\nLatest narrative here."));
}

#[test]
fn fresh_digest_subsumes_older_notes() {
    let notes = vec![
        note("2026-05-12", "Latest narrative."),
        note("2026-03-15", "Older narrative still in window."),
        note("2026-02-01", "Ancient narrative.\n\n**Opinion** \u{2014} Pre-digest position that should be hidden."),
    ];
    let digest = "---\ngenerated_at: 2026-05-10T00:00:00Z\n---\n\n## Through-Line\nDigest content here.";
    let out = load_recent_notes(None, Some(digest), &notes, 6000);
    assert!(out.starts_with("**Project Digest**\n\n## Through-Line\nDigest content here."));
    assert!(out.contains("Latest narrative."));
    assert!(out.contains("Older narrative still in window."));
    assert!(!out.contains("Pre-digest position that should be hidden."));
    let solo = load_recent_notes(None, Some("---\ngenerated_at: x\n---\n\nSolo digest."), &Vec::new(), 6000);
    assert_eq!(solo, "**Project Digest**\n\nSolo digest.");
}

#[test]
fn recent_notes_respect_the_budget() {
    let notes = vec![note("d1", &"a".repeat(150)), note("d2", &"b".repeat(300))];
    let out = load_recent_notes(None, None, &notes, 300);
    let parts: Vec<&str> = out.split("\n\n---\n\n").collect();
    assert_eq!(parts.len(), 2);
    assert_eq!(parts[0], format!("**d1**\n\n{}", "a".repeat(150)));
    assert!(parts[1].ends_with("..."));
    assert_eq!(parts[1].len(), 300 - parts[0].len() + 3);
}
