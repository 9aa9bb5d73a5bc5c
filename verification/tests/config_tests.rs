use exo_self::config::{migrate_max_chars, DEFAULT_MAX_CHARS};

/// The window estimate and nudge threshold of a `config.json`, as the
/// plugin loads them: the file's values (or the defaults), then the
/// migration, which is handed the window estimate alone.
fn load_config(json: Option<&str>) -> (u64, f64) {
    let v = json.and_then(|s| serde_json::from_str::<serde_json::Value>(s).ok());
    let max_chars = v
        .as_ref()
        .and_then(|v| v.get("estimated_max_chars").and_then(|n| n.as_u64()))
        .unwrap_or(DEFAULT_MAX_CHARS);
    let nudge = v.as_ref().and_then(|v| v.get("nudge_threshold").and_then(|n| n.as_f64())).unwrap_or(0.60);
    (migrate_max_chars(max_chars), nudge)
}

fn load_max_chars(json: Option<&str>) -> u64 {
    load_config(json).0
}

#[test]
fn legacy_max_chars_is_migrated() {
    assert_eq!(load_max_chars(Some(r#"{"estimated_max_chars": 800000}"#)), 4_000_000);
}

#[test]
fn modern_max_chars_is_preserved() {
    assert_eq!(load_max_chars(Some(r#"{"estimated_max_chars": 4000000}"#)), 4_000_000);
}

#[test]
fn deliberate_non_legacy_value_is_preserved() {
    assert_eq!(load_max_chars(Some(r#"{"estimated_max_chars": 1500000}"#)), 1_500_000);
}

#[test]
fn missing_config_uses_default() {
    assert_eq!(load_max_chars(None), 4_000_000);
}

#[test]
fn other_fields_unaffected_by_migration() {
    let json = r#"{"estimated_max_chars": 800000, "nudge_threshold": 0.5}"#;
    let (max_chars, nudge) = load_config(Some(json));
    assert_eq!(max_chars, 4_000_000);
    assert_eq!(nudge, 0.5);
    // The migration changes the legacy estimate and nothing else.
    assert_eq!(migrate_max_chars(1_234_567), 1_234_567);
}
