use exo_self::commands::backfill::{extract_session_id, is_session_note, lesson_line, sort_and_cap, store_lessons, summary};
use exo_self::commands::preflight::{
    changed_files, clippy_plan, clippy_report, clippy_timeout_secs, is_hidden, note_crate, package_name,
    project_kinds, project_label, ClippyPlan,
};
use exo_self::commands::statusline::{
    bricks, branch_label, context_line, git_status, model_label, parse_u64_exec, status_line,
    usage_from_counts, usage_from_percentage,
};
use exo_self::commands::stop_check::{run as stop_check, StopInput};
use exo_self::meta::Lesson;
use exo_self::paths::auto_memory_dir_for;
use exo_self::reflect::is_skipped_session_file;
use exo_self::sigil::{
    charged_line, render_sigil_frontmatter, sigil_document, sigil_entry, sigil_files, FieldValue,
};
use exo_self::frontmatter::{render_frontmatter, YamlField};
use exo_self::state::{is_state_file_name, SessionState};

fn s(v: &str) -> String {
    v.to_string()
}

#[test]
fn usage_from_host_percentage_and_counts() {
    assert_eq!(usage_from_percentage(200_000, 42), (84_000, 42));
    assert_eq!(usage_from_counts(200_000, 10_000, 5_000, 35_000), (50_000, 25));
    assert_eq!(usage_from_counts(0, 1, 2, 3), (6, 0));
}

#[test]
fn bricks_fill_in_proportion_and_cap() {
    assert_eq!(bricks(50_000, 200_000), 5);
    assert_eq!(bricks(300_000, 200_000), 20);
    assert_eq!(bricks(10, 0), 0);
}

#[test]
fn context_line_draws_bar_duration_and_cost() {
    let line = context_line(2, 10, 3_600_000 + 5 * 60_000, Some("1.25"));
    let used = "\x1b[0;36m\u{25a0}\x1b[0m".repeat(2);
    let free = "\x1b[2;37m\u{25a1}\x1b[0m".repeat(18);
    assert_eq!(line, format!("[{used}{free}] \x1b[1m10%\x1b[0m | 1h5m | \x1b[0;33m$1.25\x1b[0m"));
    let line = context_line(0, 0, 0, None);
    assert!(line.ends_with("] \x1b[1m0%\x1b[0m | 0h0m"));
}

#[test]
fn git_status_marks_dirty_ahead_behind() {
    assert_eq!(git_status(true, true, "2", "0"), "*\u{2191}2");
    assert_eq!(git_status(false, true, "x", "3"), "\u{2193}3");
    assert_eq!(git_status(false, false, "2", "3"), "");
    assert_eq!(parse_u64_exec(&"+17".chars().collect()), Some(17));
    assert_eq!(parse_u64_exec(&"18446744073709551616".chars().collect()), None);
    assert_eq!(parse_u64_exec(&"".chars().collect()), None);
}

#[test]
fn status_line_shows_repo_branch_and_changes() {
    let l = status_line(true, "Opus 4", "repo", "main", "*", 3, 1);
    assert_eq!(
        l,
        "\x1b[1;35m\u{25c8}\x1b[0m \x1b[1;36m[Opus 4]\x1b[0m \x1b[1;32mrepo\x1b[0m:\x1b[1;34mmain\x1b[0m \x1b[1;31m*\x1b[0m | \x1b[0;32m+3\x1b[0m/\x1b[0;31m-1\x1b[0m"
    );
    assert_eq!(status_line(false, "M", "", "", "", 0, 0), "\x1b[1;36m[M]\x1b[0m ");
    assert_eq!(model_label("Host Opus 4 Host ", "Host "), "Opus 4 ");
    assert_eq!(branch_label(""), "detached");
    assert_eq!(branch_label("dev"), "dev");
}

#[test]
fn preflight_skips_hidden_and_build_dirs() {
    assert!(is_hidden(".git"));
    assert!(is_hidden("node_modules"));
    assert!(is_hidden("target"));
    assert!(is_hidden("__pycache__"));
    assert!(!is_hidden("src"));
}

#[test]
fn preflight_changed_files_sorted_once() {
    let files = changed_files("b.rs\na.rs\n", "a.rs\n\nc/d.rs\n");
    assert_eq!(files, vec![s("a.rs"), s("b.rs"), s("c/d.rs")]);
    let mut names: Vec<String> = Vec::new();
    note_crate(&mut names, s("core"));
    note_crate(&mut names, s("cli"));
    note_crate(&mut names, s("core"));
    assert_eq!(names, vec![s("core"), s("cli")]);
}

#[test]
fn preflight_reads_package_name() {
    let toml = "[workspace]\nmembers = []\n\n[package]\nversion = \"1\"\nname = \"my-crate\"\n\n[dependencies]\n";
    assert_eq!(package_name(toml), Some(s("my-crate")));
    assert_eq!(package_name("[package]\nname='single'\n"), Some(s("single")));
    assert_eq!(package_name("[package]\nversion = \"1\"\n[lib]\nname = \"x\"\n"), None);
    assert_eq!(package_name("name = \"x\"\n"), None);
}

#[test]
fn preflight_clippy_plan_and_report() {
    assert_eq!(clippy_timeout_secs(None), 30);
    assert_eq!(clippy_timeout_secs(Some("45")), 45);
    assert_eq!(clippy_timeout_secs(Some("soon")), 30);
    assert_eq!(clippy_report(Some(true), 30), None);
    assert_eq!(clippy_report(Some(false), 30), Some(s("    clippy found unfixable issues (fixes still applied)")));
    assert_eq!(
        clippy_report(None, 30),
        Some(s("    clippy timed out after 30s, skipping (set PREFLIGHT_CLIPPY_TIMEOUT to adjust)"))
    );
    assert!(matches!(clippy_plan(Some(&Vec::new())), ClippyPlan::Skip));
    match clippy_plan(Some(&vec![s("a"), s("b")])) {
        ClippyPlan::Run { note, args } => {
            assert_eq!(note, "    cargo clippy --fix -p {a, b}...");
            assert_eq!(
                args,
                vec![s("clippy"), s("--fix"), s("--allow-dirty"), s("--allow-staged"), s("--all-targets"), s("-p"), s("a"), s("-p"), s("b")]
            );
        },
        ClippyPlan::Skip => panic!("expected a run"),
    }
    match clippy_plan(None) {
        ClippyPlan::Run { note, args } => {
            assert_eq!(note, "    cargo clippy --fix...");
            assert_eq!(args.len(), 5);
        },
        ClippyPlan::Skip => panic!("expected a run"),
    }
    assert_eq!(project_label("rust", "."), "rust");
    assert_eq!(project_label("node", "web"), "node (web)");
    assert_eq!(project_kinds(true, true, false), vec![s("python"), s("rust")]);
}

fn lesson(text: &str, ts: &str) -> Lesson {
    Lesson { text: s(text), project: s("p"), timestamp: s(ts), session_id: s("x") }
}

#[test]
fn backfill_names_and_lessons() {
    assert_eq!(extract_session_id("2026-03-02--c254693a.md"), "c254693a");
    assert_eq!(extract_session_id("2026-03-02.md"), "unknown");
    assert_eq!(extract_session_id("notes.txt"), "unknown");
    assert!(is_session_note("2026-03-02--c254693a.md"));
    assert!(!is_session_note("_legacy.md"));

    let mut lessons = vec![lesson("Test before you commit", "2026-01-02")];
    store_lessons(&mut lessons, "**Change** — test before you commit\n**Change** — Write smaller diffs", "proj", "sid", "2026-01-01");
    assert_eq!(lessons.len(), 2);
    assert_eq!(lessons[1].text, "Write smaller diffs");
    assert_eq!(lessons[1].session_id, "sid");

    let sorted = sort_and_cap(lessons);
    assert_eq!(sorted[0].text, "Write smaller diffs");
    let many: Vec<Lesson> = (0..25).map(|i| lesson(&format!("l{i}"), &format!("2026-01-{:02}", i + 1))).collect();
    let capped = sort_and_cap(many);
    assert_eq!(capped.len(), 20);
    assert_eq!(capped[0].text, "l5");
    assert_eq!(lesson_line(&lesson(&"z".repeat(120), "t")), format!("  [p] {}...", "z".repeat(97)));
    assert_eq!(summary(3, 2, 5), "backfill: scanned 3 files, added 3 lessons (total: 5)");
}

#[test]
fn sigil_files_and_listing() {
    assert_eq!(
        sigil_document("find the bug", "FINDTHEBUG", "2026-01-01T00:00:00"),
        "---\nintention: \"find the bug\"\ncompressed: \"FINDTHEBUG\"\nresonance: \"\"\ncreated: \"2026-01-01T00:00:00\"\n---\n"
    );
    assert_eq!(
        sigil_entry(&Some(s("i")), &Some(s("C")), &Some(s("")), &Some(s("t"))),
        "C  t\n  intention: i\n\n"
    );
    assert_eq!(
        sigil_entry(&None, &None, &Some(s("warm")), &None),
        "?  ? [charged]\n  intention: ?\n  resonance: warm\n\n"
    );
    let out = render_sigil_frontmatter(
        &Some(FieldValue::Text(s("i"))),
        &Some(FieldValue::Text(s("C"))),
        &Some(FieldValue::Text(s("warm"))),
        &Some(FieldValue::Other(s("Number(3)"))),
        "body",
    );
    assert_eq!(out, "---\nintention: \"i\"\ncompressed: \"C\"\nresonance: \"warm\"\ncreated: Number(3)\n---\n\nbody\n");
    assert_eq!(render_sigil_frontmatter(&None, &None, &None, &None, ""), "---\n\n---\n");
    assert_eq!(charged_line(&Some(s("ABC"))), "ABC  [charged]");
    assert_eq!(charged_line(&None), "?  [charged]");
    assert_eq!(
        sigil_files(&vec![s("b.md"), s(".md"), s("a.md"), s("notes.txt")]),
        vec![s("a.md"), s("b.md")]
    );
}

#[test]
fn auto_memory_dir_replaces_slashes_and_underscores() {
    assert_eq!(
        auto_memory_dir_for("/home/u/.host", "/home/u/my_proj"),
        "/home/u/.host/projects/-home-u-my-proj/memory"
    );
}

#[test]
fn file_names_that_are_skipped() {
    assert!(is_state_file_name("state-abc.json"));
    assert!(!is_state_file_name("state-abc.txt"));
    assert!(is_skipped_session_file("scout.md"));
    assert!(is_skipped_session_file("x.md.bak"));
    assert!(!is_skipped_session_file("2026-01-01--a.md"));
}

#[test]
fn stop_is_held_once_for_a_note() {
    let mut state = SessionState::fresh();
    state.compactions = 1;
    state.task_completions = 2;
    let input = StopInput {
        stop_hook_active: false,
        cooling_down: false,
        minutes: 12,
        wrote_notes: false,
        notes_home: s(".host/exo-self"),
    };
    let out = stop_check(&mut state, &input);
    assert!(out.checked);
    let d = out.decision.unwrap();
    assert_eq!(d.decision, "block");
    assert_eq!(
        d.reason,
        "Exo-self: ~12 min session, 2 tasks done, 1x compacted. A sentence to ~/journal.md? If nothing to note, just stop."
    );
    assert!(state.stop_reminded);
    let again = stop_check(&mut state, &input);
    assert!(!again.checked);
    assert!(again.decision.is_none());
}

#[test]
fn stop_passes_when_notes_were_written() {
    let mut state = SessionState::fresh();
    state.checkin_fired = true;
    state.project_slug = s("ws--p");
    let input = StopInput {
        stop_hook_active: false,
        cooling_down: false,
        minutes: 30,
        wrote_notes: true,
        notes_home: s(".host/exo-self"),
    };
    let out = stop_check(&mut state, &input);
    assert!(out.checked);
    assert!(out.decision.is_none());
    assert!(state.checkin_responded);
}

#[test]
fn frontmatter_is_rewritten_in_key_order() {
    use_frontmatter();
}

fn use_frontmatter() {
    let fields = vec![
        (s("task_types"), YamlField::List(vec![s("a"), s("b")])),
        (s("zeta"), YamlField::Text(s("z"))),
        (s("session_id"), YamlField::Text(s("abc"))),
        (s("alpha"), YamlField::Number(s("3"))),
        (s("engagement"), YamlField::Null),
        (s("flag"), YamlField::Bool(true)),
        (s("map"), YamlField::Other(s("a: 1\n"))),
    ];
    assert_eq!(
        render_frontmatter(&fields, "Prose"),
        "---\nsession_id: \"abc\"\nengagement: null\ntask_types: [a, b]\nalpha: 3\nflag: true\nmap: a: 1\nzeta: \"z\"\n---\n\nProse\n"
    );
    assert_eq!(render_frontmatter(&vec![(s("model"), YamlField::Text(s("")))], ""), "---\nmodel: \"\"\n---\n");
}
