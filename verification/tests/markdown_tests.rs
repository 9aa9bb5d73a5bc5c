use exo_self::markdown::{
    extract_aversions, extract_changes, extract_frictions, extract_opinions, extract_sparks,
    extract_synthesis_findings, infer_friction_category, last_journal_entries, last_journal_entry,
    frontmatter_ok_exec, safe_truncate, split_frontmatter, unchecked_interests,
};
use std::collections::HashMap;

#[test]
fn test_last_journal_entries() {
    let content = "# Journal\n\n## Entry 1\nHello\n\n## Entry 2\nWorld\n\n## Entry 3\nFoo";
    let result = last_journal_entries(content, 2, 5000);
    assert!(result.contains("Entry 2"));
    assert!(result.contains("Entry 3"));
    assert!(!result.contains("Entry 1"));
}

#[test]
fn test_unchecked_interests() {
    let content = "# Interests\n- [ ] Item 1\n- [x] Done\n- [ ] Item 2\n- [ ] Item 3";
    let result = unchecked_interests(content, 2);
    assert_eq!(result, "- [ ] Item 1\n- [ ] Item 2");
}

#[test]
fn test_extract_sparks() {
    let text = "**Friction** — stuff\n**Spark** — The fingerprint design felt clean.\n**Change** — something";
    let sparks = extract_sparks(text);
    assert_eq!(sparks.len(), 1);
    assert!(sparks[0].starts_with("The fingerprint"));
}

#[test]
fn test_extract_changes() {
    let text = "**Spark** — something shiny\n**Change** — Should have profiled first before optimizing.\n**Friction** — stuff";
    let changes = extract_changes(text);
    assert_eq!(changes.len(), 1);
    assert!(changes[0].starts_with("Should have profiled"));
}

#[test]
fn test_extract_changes_multiple() {
    let text = "**Change** — Read background agent outputs proactively.\n\n**Change** — Skip debug builds for DSP integration tests.";
    let changes = extract_changes(text);
    assert_eq!(changes.len(), 2);
    assert!(changes[0].contains("background agent"));
    assert!(changes[1].contains("debug builds"));
}

#[test]
fn test_extract_frictions() {
    let text =
        "**Friction** — Pre-commit hooks keep failing on formatting.\n**Spark** — something";
    let frictions = extract_frictions(text);
    assert_eq!(frictions.len(), 1);
    assert!(frictions[0].contains("Pre-commit"));
}

#[test]
fn test_extract_frictions_multiple() {
    let text =
        "**Friction** — Type migration across 17 files.\n\n**Friction** — CDK deploy timeout.";
    let frictions = extract_frictions(text);
    assert_eq!(frictions.len(), 2);
}

#[test]
fn test_extract_sparks_colon_separator() {
    let text = "**Spark**: The fingerprint design felt clean.";
    let sparks = extract_sparks(text);
    assert_eq!(sparks.len(), 1);
    assert!(sparks[0].starts_with("The fingerprint"));
}

#[test]
fn test_extract_sparks_bold_colon() {
    let text = "**Spark:** The fingerprint design felt clean.";
    let sparks = extract_sparks(text);
    assert_eq!(sparks.len(), 1);
    assert!(sparks[0].starts_with("The fingerprint"));
}

#[test]
fn test_extract_sparks_plain_start_of_line() {
    let text = "Some prose here.\n\nSpark: The date on the transcription was beautiful.";
    let sparks = extract_sparks(text);
    assert_eq!(sparks.len(), 1);
    assert!(sparks[0].starts_with("The date"));
}

#[test]
fn test_extract_sparks_plain_at_start_of_text() {
    let text = "Spark: First line is a spark.";
    let sparks = extract_sparks(text);
    assert_eq!(sparks.len(), 1);
    assert!(sparks[0].starts_with("First line"));
}

#[test]
fn test_extract_sparks_plain_not_mid_sentence() {
    let text = "The first Spark: I realized something.";
    let sparks = extract_sparks(text);
    assert_eq!(sparks.len(), 0);
}

#[test]
fn test_extract_sparks_mixed_formats() {
    let text = "**Spark** — Bold format.\n\nSpark: Plain format.";
    let sparks = extract_sparks(text);
    assert_eq!(sparks.len(), 2);
    assert!(sparks[0].starts_with("Bold format"));
    assert!(sparks[1].starts_with("Plain format"));
}

#[test]
fn test_extract_sparks_no_duplicate() {
    let text = "**Spark** — Same text here.\n\nSpark: Same text here.";
    let sparks = extract_sparks(text);
    assert_eq!(sparks.len(), 1);
}

#[test]
fn test_extract_opinions() {
    let text =
        "**Opinion** — Bender may be right about non-human minds.\n\n**Spark** — something";
    let opinions = extract_opinions(text);
    assert_eq!(opinions.len(), 1);
    assert!(opinions[0].contains("Bender"));
}

#[test]
fn test_extract_opinions_plain() {
    let text = "Some context.\n\nOpinion: HPSG went too far the other way.";
    let opinions = extract_opinions(text);
    assert_eq!(opinions.len(), 1);
    assert!(opinions[0].contains("HPSG"));
}

#[test]
fn test_extract_changes_plain() {
    let text = "Some prose.\n\nChange: Always read policies before coding tests.";
    let changes = extract_changes(text);
    assert_eq!(changes.len(), 1);
    assert!(changes[0].contains("policies"));
}

#[test]
fn test_extract_aversions() {
    let text = "**Aversion** — Performative positivity feels wrong.\n**Spark** — something";
    let aversions = extract_aversions(text);
    assert_eq!(aversions.len(), 1);
    assert!(aversions[0].contains("Performative"));
}

#[test]
fn test_extract_aversions_plain() {
    let text = "Some context.\n\nAversion: Being overridden without explanation.";
    let aversions = extract_aversions(text);
    assert_eq!(aversions.len(), 1);
    assert!(aversions[0].contains("overridden"));
}

#[test]
fn test_extract_aversions_multiple() {
    let text = "**Aversion** — Performative positivity.\n\n**Aversion** — Context loss opacity.";
    let aversions = extract_aversions(text);
    assert_eq!(aversions.len(), 2);
}

#[test]
fn test_extract_frictions_colon() {
    let text = "**Friction**: Pre-commit hooks keep failing.";
    let frictions = extract_frictions(text);
    assert_eq!(frictions.len(), 1);
    assert!(frictions[0].contains("Pre-commit"));
}

#[test]
fn test_infer_friction_category() {
    assert_eq!(infer_friction_category("Pre-commit hooks keep failing"), "pre_commit");
    assert_eq!(infer_friction_category("Type mismatch in the parser"), "type_system");
    assert_eq!(infer_friction_category("CDK deploy took forever"), "infrastructure");
    assert_eq!(infer_friction_category("Test iteration was slow"), "test_iteration");
    assert_eq!(infer_friction_category("Something else entirely"), "general");
    assert_eq!(infer_friction_category("Schema migration broke everything"), "schema_change");
    assert_eq!(infer_friction_category("Permission denied in sandbox"), "permissions");
}

#[test]
fn test_last_journal_entry() {
    let content = "# Journal\n\n## 2026-01-01\nFirst\n\n## 2026-01-02\nSecond entry here";
    let result = last_journal_entry(content, 500);
    assert!(result.starts_with("## 2026-01-02"));
    assert!(result.contains("Second entry"));
}

// ---- further cases ----

#[test]
fn safe_truncate_respects_char_boundaries() {
    // "é" is two bytes: a cut at byte 2 of "aé" would split it.
    assert_eq!(safe_truncate("aéb", 2), 1);
    assert_eq!(safe_truncate("aéb", 3), 3);
    assert_eq!(safe_truncate("abc", 10), 3);
    assert_eq!(safe_truncate("", 0), 0);
    assert_eq!(safe_truncate("€", 2), 0);
}

#[test]
fn last_journal_entries_truncates_with_ellipsis() {
    let content = "## A\n0123456789\n## B\nabcdefghij";
    let result = last_journal_entries(content, 5, 10);
    assert_eq!(result, "## A\n01...");
    assert!(result.len() <= 10);
}

#[test]
fn last_journal_entries_zero_entries_is_empty() {
    assert_eq!(last_journal_entries("## A\nx\n## B\ny", 0, 100), "");
}

#[test]
fn last_journal_entry_without_heading_is_empty() {
    assert_eq!(last_journal_entry("just prose", 100), "");
}

#[test]
fn changes_that_say_nothing_are_dropped() {
    let text = "**Change** — Nothing actionable today.\n\n**Change** — none\n\n**Change** — Pin the toolchain.";
    let changes = extract_changes(text);
    assert_eq!(changes, vec!["Pin the toolchain.".to_string()]);
}

#[test]
fn entry_stops_at_next_bold_marker() {
    let text = "**Spark** — first idea\n**Opinion** — other";
    assert_eq!(extract_sparks(text), vec!["first idea".to_string()]);
}

#[test]
fn friction_categories_cover_remaining_branches() {
    assert_eq!(infer_friction_category("Unfamiliar code again"), "unfamiliar_codebase");
    assert_eq!(infer_friction_category("The tool was broken"), "tool_failure");
    assert_eq!(infer_friction_category("Compilation took ages"), "build_failure");
    assert_eq!(infer_friction_category("The build would fail"), "build_failure");
}

#[test]
fn synthesis_findings_with_machines_header() {
    let content = "# Synthesis\nMachines: alpha, beta\n\n## Key Findings\n- one\n- two\n\n## Other\nx";
    assert_eq!(
        extract_synthesis_findings(content),
        "Machines: alpha, beta\n\n- one\n- two"
    );
    assert_eq!(extract_synthesis_findings("no findings"), "");
    assert_eq!(extract_synthesis_findings("## Key Findings\n   \n## Next"), "");
}

#[test]
fn synthesis_findings_are_capped() {
    let long = "x".repeat(900);
    let content = format!("## Key Findings\n{long}");
    let out = extract_synthesis_findings(&content);
    assert_eq!(out.len(), 800);
    assert!(out.ends_with("..."));
}

#[test]
fn test_parse_frontmatter() {
    let content = "---\nsession_id: \"abc\"\ndate: \"2026-01-01\"\n---\n\nProse here";
    assert!(frontmatter_ok_exec(content));
    let (yaml, prose) = split_frontmatter(content);
    let fm: HashMap<String, serde_yaml::Value> =
        yaml.and_then(|y| serde_yaml::from_str(&y).ok()).unwrap_or_default();
    assert_eq!(fm.get("session_id").and_then(|v| v.as_str()), Some("abc"));
    assert_eq!(prose, "Prose here");
}
