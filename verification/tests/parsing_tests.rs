use exo_self::commands::extract_handoff::split_sentences;
use exo_self::commands::post_compact::{handoff_cuts_cleanly, run as reload, ReloadInput};
use exo_self::frontmatter::render_frontmatter;
use exo_self::commands::session_end::record_session;
use exo_self::frontmatter::{parse_frontmatter, parse_yaml_block, YamlField};
use exo_self::reflect::rank_preferences;
use exo_self::sigil::compress;

fn chars(s: &str) -> Vec<char> {
    s.chars().collect()
}

fn texts(v: Vec<Vec<char>>) -> Vec<String> {
    v.into_iter().map(|c| c.into_iter().collect()).collect()
}

#[test]
fn split_sentences_at_period_before_capital() {
    assert_eq!(texts(split_sentences(&chars("First one. Second one."))), vec!["First one.", "Second one."]);
}

#[test]
fn split_sentences_at_line_breaks_and_not_before_lower_case() {
    let out = texts(split_sentences(&chars("  Line one\n\nsee e.g. this one. and more.\nÉtat. Éclat")));
    assert_eq!(out, vec!["Line one", "see e.g. this one. and more.", "État.", "Éclat"]);
    assert!(split_sentences(&chars("   \n  ")).is_empty());
}

#[test]
fn parse_frontmatter_empty_block() {
    let (fields, prose) = parse_frontmatter("---\n---\n\nDigest body.");
    assert!(fields.is_empty());
    assert_eq!(prose, "Digest body.");
}

#[test]
fn parse_frontmatter_reads_fields_in_key_order() {
    let (fields, prose) =
        parse_frontmatter("---\nsession_id: \"abc\"\nduration_min: 45\ntask_types: [debug, refactor]\nflag: true\n---\n\nProse here");
    assert_eq!(prose, "Prose here");
    let keys: Vec<&str> = fields.iter().map(|(k, _)| k.as_str()).collect();
    assert_eq!(keys, vec!["duration_min", "flag", "session_id", "task_types"]);
    assert!(matches!(&fields[0].1, YamlField::Number(n) if n == "45"));
    assert!(matches!(&fields[1].1, YamlField::Bool(true)));
    assert!(matches!(&fields[2].1, YamlField::Text(t) if t == "abc"));
    assert!(matches!(&fields[3].1, YamlField::List(items) if items == &vec!["debug".to_string(), "refactor".to_string()]));
}

#[test]
fn parse_frontmatter_without_block_or_unparsable() {
    let (fields, prose) = parse_frontmatter("No frontmatter at all.");
    assert!(fields.is_empty());
    assert_eq!(prose, "No frontmatter at all.");
    let (fields, prose) = parse_frontmatter("---\n: [unclosed\n---\nText");
    assert!(fields.is_empty());
    assert_eq!(prose, "Text");
    assert!(parse_yaml_block("- a\n- b").is_none());
}

#[test]
fn preferences_rank_by_net_support_then_support() {
    let keys = vec![(0, 0), (3, 1), (2, 0), (3, 1), (5, 5)];
    assert_eq!(rank_preferences(&keys), vec![1, 3, 2, 4]);
    assert!(rank_preferences(&vec![(0, 2)]).is_empty());
}

#[test]
fn session_history_keeps_newest_ten() {
    let mut history: Vec<u32> = (1..=10).collect();
    record_session(&mut history, 11);
    assert_eq!(history, (2..=11).collect::<Vec<u32>>());
    let mut short = vec![1u32];
    record_session(&mut short, 2);
    assert_eq!(short, vec![1, 2]);
}

#[test]
fn glyph_has_at_most_26_letters() {
    let g = compress("The quick brown fox jumps over the lazy dog, twice: the quick brown fox");
    assert_eq!(g.len(), 26);
}

#[test]
fn rendered_frontmatter_parses_back() {
    let fields = vec![
        ("session_id".to_string(), YamlField::Text("abc".to_string())),
        ("duration_min".to_string(), YamlField::Number("45".to_string())),
        ("scouted".to_string(), YamlField::Bool(false)),
    ];
    let text = render_frontmatter(&fields, "Some prose.");
    let (back, prose) = parse_frontmatter(&text);
    assert_eq!(prose, "Some prose.\n");
    let keys: Vec<&str> = back.iter().map(|(k, _)| k.as_str()).collect();
    assert_eq!(keys, vec!["duration_min", "scouted", "session_id"]);
    assert!(matches!(&back[0].1, YamlField::Number(n) if n == "45"));
    assert!(matches!(&back[1].1, YamlField::Bool(false)));
    assert!(matches!(&back[2].1, YamlField::Text(t) if t == "abc"));
}

#[test]
fn reload_uses_own_handoff_without_reading_the_latest() {
    // A latest handoff whose 3000-byte cut falls inside a character does
    // not matter when the session's own handoff has text.
    let latest = format!("{}\u{00e9}{}", "a".repeat(2999), "b".repeat(10));
    assert!(!handoff_cuts_cleanly(&latest));
    let input = ReloadInput {
        compactions: 1,
        checkin_fired: false,
        checkin_responded: false,
        auto_memory_exists: false,
        session_id: "s1".to_string(),
        session_handoff: Some("Own handoff.".to_string()),
        latest_handoff: Some(latest),
        journal: None,
        max_journal_entries: 3,
        max_journal_chars: 1000,
        interests: None,
        max_interests: 5,
        project_slug: String::new(),
        project_notes: String::new(),
    };
    let out = reload(&input);
    assert!(out.hook_specific_output.additional_context.contains("### Session Handoff (auto-extracted)\n\nOwn handoff."));
}
