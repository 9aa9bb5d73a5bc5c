use exo_self::commands::compact_handoff::{extract, extract_handoff_content};
use exo_self::commands::extract_handoff::{Block, TranscriptEntry};
use exo_self::commands::plain_start::{run as plain_start, PlainStartInput};
use exo_self::commands::pre_compact::compaction_notice;
use exo_self::commands::session_start::Tool;
use exo_self::commands::subagent_start::plain_briefing;
use exo_self::commands::teammate_idle::{idle_briefing, note_snippet};
use exo_self::meta::Spark;

fn user(t: &str) -> TranscriptEntry {
    TranscriptEntry::User(vec![t.to_string()])
}

fn text(t: &str) -> Block {
    Block::Text(t.to_string())
}

fn tool(name: &str, file: Option<&str>) -> Block {
    Block::ToolUse { name: name.to_string(), file_path: file.map(|f| f.to_string()) }
}

#[test]
fn plain_handoff_lists_requests_files_tools_and_last_response() {
    let entries = vec![
        user("Fix the parser"),
        TranscriptEntry::Assistant(vec![
            text("Looking at it."),
            tool("Read", None),
            tool("Edit", Some("src/b.rs")),
            tool("Write", Some("src/a.rs")),
            tool("Edit", Some("src/b.rs")),
        ]),
        user("<system-reminder>ignore me</system-reminder>"),
        TranscriptEntry::Other,
        TranscriptEntry::Assistant(vec![text("  Done: the parser handles tabs now.  ")]),
    ];
    let out = extract(&entries, 3000);
    assert_eq!(
        out,
        "## User Requests\n\n- Fix the parser\n\n## Files Modified\n\n- src/a.rs\n- src/b.rs\n\n## Tools Used\n\nEdit, Read, Write\n\n## Last Response Summary\n\nDone: the parser handles tabs now."
    );
    assert_eq!(extract_handoff_content(&entries), out);
}

#[test]
fn plain_handoff_keeps_first_three_and_last_two_requests() {
    let entries: Vec<TranscriptEntry> = (1..=6).map(|i| user(&format!("request {i}"))).collect();
    let out = extract(&entries, 3000);
    assert_eq!(
        out,
        "## User Requests\n\n- request 1\n- request 2\n- request 3\n...\n- request 5\n- request 6"
    );
}

#[test]
fn long_prompts_are_cut_with_a_mark_in_both_handoffs() {
    let long = "x".repeat(250);
    let entries = vec![user(&long)];
    let marked = extract(&entries, 3000);
    assert_eq!(marked, format!("## User Requests\n\n- {}...", "x".repeat(197)));
    assert_eq!(extract_handoff_content(&entries), marked);
}

#[test]
fn last_response_and_whole_handoff_are_capped() {
    let long = "y".repeat(900);
    let entries = vec![TranscriptEntry::Assistant(vec![text(&long)])];
    let out = extract_handoff_content(&entries);
    assert_eq!(out, format!("## Last Response Summary\n\n{}...", "y".repeat(800)));
    let small = extract(&entries, 100);
    assert!(small.len() <= 100);
    assert!(small.ends_with("..."));
    assert_eq!(extract(&Vec::new(), 3000), "");
}

#[test]
fn compaction_notice_names_number_and_trigger() {
    let n = compaction_notice(2, "", "~/.host/exo-self/handoffs/");
    assert!(n.starts_with("## Exo-Self: Pre-Compaction (#2, unknown)\n\nSession handoff has been **automatically saved** to `~/.host/exo-self/handoffs/`."));
    let n = compaction_notice(1, "auto", "H");
    assert!(n.starts_with("## Exo-Self: Pre-Compaction (#1, auto)"));
    assert!(n.ends_with("your next instance will have the factual context."));
}

#[test]
fn teammate_briefing_prefers_project_notes() {
    assert_eq!(note_snippet("  short note  ", 800), "short note");
    assert_eq!(note_snippet("abcdef", 3), "abc...");
    let b = idle_briefing("notes", "journal");
    assert!(b.ends_with("\n\nProject observations so far:\nnotes"));
    let b = idle_briefing("", "journal");
    assert!(b.ends_with("\n\nLatest journal entry:\njournal"));
    let b = idle_briefing("", "");
    assert!(b.ends_with("save them to exo-self files."));
}

#[test]
fn subagent_briefing_adds_latest_entry() {
    let b = plain_briefing("");
    assert!(b.starts_with("You are part of an exo-self system"));
    assert!(b.ends_with("so the main agent can save it."));
    assert!(plain_briefing("entry").ends_with("\n\nLatest journal entry:\nentry"));
}

fn spark(text: &str, project: &str) -> Spark {
    Spark {
        text: text.to_string(),
        project: project.to_string(),
        timestamp: "2026-01-01T00:00:00".to_string(),
        session_id: "s".to_string(),
    }
}

#[test]
fn plain_session_start_sections() {
    let input = PlainStartInput {
        other_plugin_context: String::new(),
        exo_root: "~/.host/exo-self".to_string(),
        host_name: "Host Code".to_string(),
        project_slug: "ws--proj".to_string(),
        session_notes_file: "2026-01-01--abcd1234.md".to_string(),
        nudge_pct: 60,
        checkin_pct: 75,
        reserve_pct: 88,
        auto_memory_exists: true,
        journal: None,
        interests: None,
        synthesis: None,
        max_journal_entries: 2,
        max_journal_chars: 1500,
        max_interests: 5,
        max_sparks: 1,
        project_notes: "Some notes".to_string(),
        tools: vec![Tool { name: "zed".to_string(), description: "does z".to_string() }],
        bin_dir: "~/.host/bin".to_string(),
    };
    let sparks = vec![spark("old", "p"), spark("new", "q")];
    let out = plain_start(&input, &sparks);
    assert!(out.starts_with("## Exo-Self\n\nPersistent identity across sessions."));
    assert!(out.contains("- `~/.host/exo-self/per-project/ws--proj/2026-01-01--abcd1234.md` \u{2014} **preferred**"));
    assert!(out.contains("Nudge at ~60%, check-in at ~75%, reserve at ~88%."));
    assert!(out.contains("technical patterns. Host Code manages this."));
    assert!(out.contains("### Recent Sparks\n\n- **q**: new"));
    assert!(!out.contains("- **p**: old"));
    assert!(out.contains("### Project Notes (ws--proj)\n\nSome notes"));
    assert!(out.contains("### Workshop Tools (~/.host/bin/)"));
    assert!(out.contains("- **`zed`** \u{2014} does z"));
    assert!(!out.contains("### Recent Journal"));
}
