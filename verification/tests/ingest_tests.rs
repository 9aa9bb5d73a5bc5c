use exo_self::ingest::{
    history_row, import_session_id, machine_list, preference_key, session_key, skipped_import_file,
    spark_key, spark_rows, split_import_note, stale_preference_keys, IngestStats, SparkFields,
};

fn s(v: &str) -> String {
    v.to_string()
}

#[test]
fn row_keys() {
    assert_eq!(session_key("mac", "abc"), "mac:abc");
    assert_eq!(spark_key("mac", "abc", 12), "mac:abc:12");
    assert_eq!(preference_key("mac", 7), "mac:pref:007");
    assert_eq!(preference_key("mac", 1234), "mac:pref:1234");
    let stats = IngestStats::default();
    assert_eq!(stats.sessions_ingested, 0);
    assert_eq!(stats.sparks_ingested, 0);
    assert_eq!(stats.machine_id, "");
}

#[test]
fn history_rows_need_a_session_id() {
    assert_eq!(
        history_row("m", Some("s1"), Some("2026-03-02T10:00:00")),
        Some((s("m:s1"), s("2026-03-02")))
    );
    assert_eq!(history_row("m", Some("s1"), Some("2026")), Some((s("m:s1"), s("2026"))));
    assert_eq!(history_row("m", Some("s1"), None), Some((s("m:s1"), s(""))));
    assert_eq!(history_row("m", Some(""), Some("2026-03-02")), None);
    assert_eq!(history_row("m", None, None), None);
}

#[test]
fn imported_notes() {
    assert!(skipped_import_file("_legacy.md"));
    assert!(skipped_import_file("x.md.bak"));
    assert!(!skipped_import_file("2026-01-01--a.md"));
    assert_eq!(
        split_import_note("\n---\nsession_id: a\n---\n\n  Prose here.  \n"),
        Some((s("\nsession_id: a\n"), s("Prose here.")))
    );
    assert_eq!(split_import_note("no frontmatter"), None);
    assert_eq!(split_import_note("---\nunclosed"), None);
    assert_eq!(import_session_id(Some("abc"), "f.md"), "abc");
    assert_eq!(import_session_id(None, "2026-01-01--abc.md"), "2026-01-01--abc");
    assert_eq!(import_session_id(None, "a.md.md"), "a");
}

#[test]
fn snapshot_sparks_become_rows() {
    let sparks = vec![
        SparkFields { text: Some(s("t")), project: Some(s("p")), session_id: Some(s("s")), timestamp: Some(s("ts")) },
        SparkFields { text: None, project: None, session_id: None, timestamp: None },
    ];
    let rows = spark_rows("m", &sparks);
    assert_eq!(rows.len(), 2);
    assert_eq!(rows[0].0, "m:s:0");
    assert_eq!(rows[0].1.text, "t");
    assert_eq!(rows[0].1.timestamp.as_deref(), Some("ts"));
    assert_eq!(rows[1].0, "m:unknown:1");
    assert_eq!(rows[1].1.session_id, "unknown");
    assert_eq!(rows[1].1.project, "");
    assert_eq!(rows[1].1.machine_id, "m");
}

#[test]
fn machines_and_stale_keys() {
    assert_eq!(machine_list(&vec![s("b"), s("a"), s("b")]), vec![s("a"), s("b")]);
    assert_eq!(
        stale_preference_keys(&vec![s("m:pref:000"), s("n:pref:000"), s("m:pref:001")], "m"),
        vec![s("m:pref:000"), s("m:pref:001")]
    );
}
