use exo_self::markdown::split_frontmatter;
use exo_self::traces::{parse_trace, select_traces, trace_document, trace_file_name, TraceEntry, TraceFields};
use std::collections::HashMap;

/// Reads a trace file's contents back into an entry, the frontmatter parsed
/// as YAML.
fn read_back(content: &str) -> Option<TraceEntry> {
    let (yaml, prose) = split_frontmatter(content);
    let map: HashMap<String, serde_yaml::Value> = yaml
        .and_then(|y| serde_yaml::from_str(&y).ok())
        .unwrap_or_default();
    let field = |k: &str| map.get(k).and_then(|v| v.as_str()).map(|s| s.to_string());
    let fields = TraceFields {
        trace_type: field("type"),
        project: field("project"),
        timestamp: field("timestamp"),
        session_id: field("session_id"),
        category: field("category"),
    };
    parse_trace(&fields, &prose)
}

/// Writes a trace the way the plugin does and reads it back.
fn write_and_read(
    trace_type: &str,
    text: &str,
    project: &str,
    session_id: &str,
    category: Option<&str>,
    timestamp: &str,
) -> TraceEntry {
    let doc = trace_document(trace_type, text, project, timestamp, session_id, category);
    read_back(&doc).unwrap()
}

#[test]
fn test_write_and_read_trace() {
    let e = write_and_read(
        "spark",
        "The moment I realized the pattern.",
        "test-project",
        "abc12345",
        None,
        "2026-03-23T10:00:00.000000",
    );
    let traces = select_traces(vec![e], None, None);
    assert_eq!(traces.len(), 1);
    assert_eq!(traces[0].trace_type, "spark");
    assert_eq!(traces[0].text, "The moment I realized the pattern.");
    assert_eq!(traces[0].project, "test-project");
}

#[test]
fn test_filter_by_type() {
    let t = "2026-03-23T10:00:00.000000";
    let make = || {
        vec![
            write_and_read("spark", "A spark", "proj", "s1", None, t),
            write_and_read("opinion", "An opinion", "proj", "s1", None, t),
            write_and_read("surprise", "A surprise", "proj", "s1", None, t),
        ]
    };
    let sparks = select_traces(make(), Some("spark"), None);
    assert_eq!(sparks.len(), 1);
    assert_eq!(sparks[0].trace_type, "spark");

    let all = select_traces(make(), None, None);
    assert_eq!(all.len(), 3);
}

#[test]
fn test_filter_by_project() {
    let t = "2026-03-23T10:00:00.000000";
    let entries = vec![
        write_and_read("spark", "Spark A", "alpha", "s1", None, t),
        write_and_read("spark", "Spark B", "beta", "s2", None, t),
    ];
    let alpha = select_traces(entries, None, Some("alpha"));
    assert_eq!(alpha.len(), 1);
    assert_eq!(alpha[0].text, "Spark A");
}

#[test]
fn test_friction_with_category() {
    let e = write_and_read(
        "friction",
        "Pre-commit hook failed",
        "proj",
        "s1",
        Some("pre_commit"),
        "2026-03-23T10:00:00.000000",
    );
    let traces = select_traces(vec![e], Some("friction"), None);
    assert_eq!(traces.len(), 1);
    assert_eq!(traces[0].category.as_deref(), Some("pre_commit"));
}

#[test]
fn test_traces_sorted_by_timestamp() {
    // The files as the glob lists them (by name).
    let files = [
        "---\ntype: \"spark\"\nproject: \"proj\"\ntimestamp: \"2026-03-23T10:00:00\"\nsession_id: \"s1\"\n---\n\nFirst",
        "---\ntype: \"spark\"\nproject: \"proj\"\ntimestamp: \"2026-03-23T11:00:00\"\nsession_id: \"s3\"\n---\n\nSecond",
        "---\ntype: \"spark\"\nproject: \"proj\"\ntimestamp: \"2026-03-23T12:00:00\"\nsession_id: \"s2\"\n---\n\nThird",
    ];
    let entries: Vec<TraceEntry> = [files[0], files[2], files[1]]
        .iter()
        .filter_map(|c| read_back(c))
        .collect();
    let traces = select_traces(entries, None, None);
    assert_eq!(traces.len(), 3);
    assert_eq!(traces[0].text, "First");
    assert_eq!(traces[1].text, "Second");
    assert_eq!(traces[2].text, "Third");
}

#[test]
fn trace_file_names_shorten_project_and_session() {
    let name = trace_file_name("spark", "2026-03-23T10-00-00", "test-project", "abc12345xyz");
    assert_eq!(name, "spark--2026-03-23T10-00-00--test-project--abc12345.md");
    let long = "a-very-long-project-slug-that-goes-on-and-on";
    let name = trace_file_name("lesson", "T", long, "s1");
    assert_eq!(name, format!("lesson--T--{}--s1.md", &long[long.len() - 30..]));
}

#[test]
fn trace_document_has_frontmatter_and_text() {
    let doc = trace_document("friction", "Hook failed", "proj", "2026-01-01T00:00:00", "s1", Some("pre_commit"));
    assert_eq!(
        doc,
        "---\ntype: \"friction\"\nproject: \"proj\"\ntimestamp: \"2026-01-01T00:00:00\"\nsession_id: \"s1\"\ncategory: \"pre_commit\"\n---\n\nHook failed\n"
    );
}

#[test]
fn trace_without_text_is_skipped() {
    assert!(read_back("---\ntype: \"spark\"\n---\n\n   ").is_none());
    assert!(read_back("---\nproject: \"p\"\n---\n\nText").is_none());
}

#[test]
fn equal_timestamps_keep_their_order() {
    let t = "2026-03-23T10:00:00";
    let entries = vec![
        write_and_read("spark", "one", "p", "s", None, t),
        write_and_read("spark", "two", "p", "s", None, t),
    ];
    let traces = select_traces(entries, None, None);
    assert_eq!(traces[0].text, "one");
    assert_eq!(traces[1].text, "two");
}
