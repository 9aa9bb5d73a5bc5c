use exo_self::project::{
    cleanup_candidate, count_notes_after_digest, detect_wrote_notes, extract_marker_paragraphs, is_empty_note,
    load_recent_notes, notes_loadable, slug_for_dir, slug_from_input, slug_from_path, NoteFile, NoteStamp,
};

#[test]
fn slug_from_path_is_pure_last_two() {
    assert_eq!(slug_from_path("/a/b/c/d"), "c--d");
    assert_eq!(slug_from_path("/datar/workspace/my-project"), "workspace--my-project");
    assert_eq!(slug_from_path("/only"), "only");
    assert_eq!(slug_from_path(""), "");
}

#[test]
fn extract_markers_empty() {
    assert_eq!(extract_marker_paragraphs(""), "");
}

#[test]
fn extract_markers_no_markers() {
    let prose = "Just some regular prose.\n\nAnother paragraph here.";
    assert_eq!(extract_marker_paragraphs(prose), "");
}

#[test]
fn extract_markers_single_opinion() {
    let prose = "Intro paragraph.\n\n**Opinion** — Tools reflect the builder.\n\nClosing thought.";
    let result = extract_marker_paragraphs(prose);
    assert_eq!(result, "**Opinion** — Tools reflect the builder.");
}

#[test]
fn extract_markers_single_surprise() {
    let prose = "Some context.\n\n**Surprise** — The map was wrong here.";
    let result = extract_marker_paragraphs(prose);
    assert_eq!(result, "**Surprise** — The map was wrong here.");
}

#[test]
fn extract_markers_preserves_order() {
    let prose = "Lead-in.\n\n**Surprise** — First surprise.\n\nIntermediate prose.\n\n\
         **Opinion** — A take.\n\n**Surprise** — Second surprise.\n\nOutro.";
    let result = extract_marker_paragraphs(prose);
    let expected = "**Surprise** — First surprise.\n\n\
                    **Opinion** — A take.\n\n\
                    **Surprise** — Second surprise.";
    assert_eq!(result, expected);
}

#[test]
fn extract_markers_ignores_other_marker_types() {
    let prose = "**Spark** — Fun moment.\n\n**Aversion** — Disliked the pattern.\n\n\
                 **Friction** — Tooling fought back.\n\n**Change** — Should profile first.";
    assert_eq!(extract_marker_paragraphs(prose), "");
}

#[test]
fn extract_markers_multiline_paragraph() {
    let prose = "**Opinion** — A long take\nthat spans\nseveral lines.\n\nNext paragraph.";
    let result = extract_marker_paragraphs(prose);
    assert_eq!(result, "**Opinion** — A long take\nthat spans\nseveral lines.");
}

#[test]
fn extract_markers_mixed_with_unrelated_paragraphs() {
    let prose = "Opening.\n\nSomething about the code.\n\n\
                 **Opinion** — Worth keeping.\n\nMore narrative.\n\n\
                 **Spark** — Fun but transient.\n\n**Surprise** — Also worth keeping.";
    let result = extract_marker_paragraphs(prose);
    let expected = "**Opinion** — Worth keeping.\n\n**Surprise** — Also worth keeping.";
    assert_eq!(result, expected);
}

#[test]
fn slug_prefers_git_root() {
    assert_eq!(
        slug_for_dir("/tmp/parent/myrepo/plugins/inner", Some("/tmp/parent/myrepo")),
        "parent--myrepo"
    );
    assert_eq!(slug_for_dir("/tmp/alpha/beta", None), "alpha--beta");
    assert_eq!(slug_from_input("", "/x/y/z", None), "y--z");
    assert_eq!(slug_from_input("/a/b", "/x/y/z", None), "a--b");
}

#[test]
fn slug_ignores_trailing_slashes() {
    assert_eq!(slug_from_path("/a/b/c/"), slug_from_path("/a/b/c"));
    assert_eq!(slug_from_path("///"), "");
}

#[test]
fn marker_extraction_is_idempotent_on_example() {
    let prose = "x\n\n**Opinion** — a\n\ny\n\n**Surprise** — b";
    let once = extract_marker_paragraphs(prose);
    assert_eq!(extract_marker_paragraphs(&once), once);
}

#[test]
fn count_notes_after_digest_returns_zero_for_missing_project() {
    // A project without a notes directory has no note files to stamp.
    let stamps: Vec<NoteStamp> = Vec::new();
    assert_eq!(count_notes_after_digest(&stamps), 0);
}

#[test]
fn count_notes_after_digest_counts_only_newer_notes() {
    let stamp = |name: &str, newer: bool| NoteStamp { name: name.to_string(), newer_than_digest: newer };
    let stamps = vec![
        stamp("old1.md", false),
        stamp("old2.md", false),
        stamp("_digest.md", true),
        stamp("new1.md", true),
        stamp("new2.md", true),
        stamp("new3.md", true),
    ];
    assert_eq!(count_notes_after_digest(&stamps), 3);
}

#[test]
fn cleanup_looks_only_at_small_notes() {
    assert!(cleanup_candidate("2026-01-01--abc.md", 120));
    assert!(!cleanup_candidate("2026-01-01--abc.md", 501));
    assert!(!cleanup_candidate("_legacy.md", 10));
    assert!(!cleanup_candidate("sessions.md", 10));
    assert!(!cleanup_candidate("notes.txt", 10));
    assert!(is_empty_note("---\nsession_id: \"a\"\n---\n\n  \n"));
    assert!(!is_empty_note("---\nsession_id: \"a\"\n---\n\nSomething happened."));
}

#[test]
fn wrote_notes_from_prose_or_journal() {
    assert!(detect_wrote_notes(Some("---\nx: 1\n---\n\nProse."), false));
    assert!(!detect_wrote_notes(Some("---\nx: 1\n---\n"), false));
    assert!(detect_wrote_notes(None, true));
    assert!(!detect_wrote_notes(None, false));
}

/// A session note as the plugin writes it.
fn note(date: &str, prose: &str) -> NoteFile {
    NoteFile { content: format!("---\ndate: \"{date}\"\n---\n\n{prose}\n"), date: date.to_string() }
}

/// Loads notes (newest first) the way the session start does.
fn load(digest: Option<&str>, notes: &Vec<NoteFile>) -> String {
    assert!(notes_loadable(None, digest, notes));
    load_recent_notes(None, digest, notes, 6000)
}

#[test]
fn load_recent_notes_tiered_loading() {
    let notes = vec![
        note("2026-05-12", "Latest narrative here.\n\n**Opinion** \u{2014} Fresh take."),
        note("2026-05-10", "Second-newest narrative.\n\nNo markers in this one."),
        note(
            "2026-04-20",
            "Old chatter that should drop.\n\n**Surprise** \u{2014} Important wrong-map.\n\nMore chatter.\n\n**Opinion** \u{2014} Worth surfacing.",
        ),
        note("2026-03-01", "Ancient chatter.\n\nNo markers anywhere."),
    ];
    let out = load(None, &notes);
    assert!(out.contains("Latest narrative here."), "newest prose missing");
    assert!(out.contains("Second-newest narrative."), "second prose missing");
    assert!(out.contains("No markers in this one."), "second-note prose missing");
    assert!(out.contains("**Surprise** \u{2014} Important wrong-map."));
    assert!(out.contains("**Opinion** \u{2014} Worth surfacing."));
    assert!(!out.contains("Old chatter that should drop."), "older note's non-marker prose leaked through");
    assert!(!out.contains("More chatter."), "older note's intermediate prose leaked through");
    assert!(!out.contains("Ancient chatter."));
}

#[test]
fn load_recent_notes_fresh_digest_subsumes_older_notes() {
    // The digest is newer than the second-newest note, so it is loaded.
    let digest = "---\ngenerated_at: 2026-05-10T00:00:00Z\n---\n\n## Through-Line\nDigest content here.";
    let notes = vec![
        note("2026-05-12", "Latest narrative."),
        note("2026-03-15", "Older narrative still in window."),
        note("2026-02-01", "Ancient narrative.\n\n**Opinion** \u{2014} Pre-digest position that should be hidden."),
    ];
    let out = load(Some(digest), &notes);
    assert!(out.contains("**Project Digest**"), "missing digest header");
    assert!(out.contains("Digest content here."));
    assert!(out.contains("Latest narrative."));
    assert!(out.contains("Older narrative still in window."));
    assert!(
        !out.contains("Pre-digest position that should be hidden."),
        "fresh digest should suppress older notes' marker scan"
    );
    assert!(!out.contains("Ancient narrative."), "very-old prose should be dropped entirely");
}

#[test]
fn load_recent_notes_stale_digest_ignored() {
    // Two notes are newer than the digest, so the digest is stale and not
    // handed to the loader.
    let notes = vec![
        note("2026-05-12", "Newest note."),
        note("2026-04-25", "Mid note."),
        note("2026-04-15", "Older note.\n\n**Surprise** \u{2014} A wrong-map worth keeping."),
    ];
    let out = load(None, &notes);
    assert!(!out.contains("Stale digest content."));
    assert!(!out.contains("**Project Digest**"));
    assert!(out.contains("Newest note."));
    assert!(out.contains("Mid note."));
    assert!(out.contains("**Surprise** \u{2014} A wrong-map worth keeping."));
    assert!(!out.contains("Older note."), "older note's non-marker prose should not leak");
}

#[test]
fn load_recent_notes_digest_only_no_notes() {
    let digest = "---\ngenerated_at: 2026-05-10T00:00:00Z\n---\n\nSolo digest.";
    let out = load(Some(digest), &Vec::new());
    assert!(out.contains("**Project Digest**"));
    assert!(out.contains("Solo digest."));
}

#[test]
fn count_notes_after_digest_returns_zero_without_digest() {
    // Without a digest no note is stamped as newer than it.
    let stamps = vec![
        NoteStamp { name: "a.md".to_string(), newer_than_digest: false },
        NoteStamp { name: "b.md".to_string(), newer_than_digest: false },
    ];
    assert_eq!(count_notes_after_digest(&stamps), 0);
}

#[test]
fn load_recent_notes_summary_over_budget_keeps_only_the_summary() {
    let summary = format!("---\nupdated: \"x\"\n---\n\n{}\n", "s".repeat(120));
    let notes = vec![note("2026-05-12", "Newest note.")];
    assert!(notes_loadable(Some(&summary), None, &notes));
    let out = load_recent_notes(Some(&summary), None, &notes, 100);
    assert_eq!(out, format!("**Project Summary**\n\n{}", "s".repeat(120)));
}
