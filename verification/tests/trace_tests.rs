use exo_self::commands::session_end::{record_traces, reflection_autonomy, strategy_adapted, MetaTraces};
use exo_self::meta::{absorb, absorb_frictions, dedup_key_exec, record_failure_frictions, Friction, Spark};
use exo_self::state::{Counter, SessionState};

fn empty_meta() -> MetaTraces {
    MetaTraces {
        sparks: Vec::new(),
        opinions: Vec::new(),
        lessons: Vec::new(),
        frictions: Vec::new(),
        aversions: Vec::new(),
        surprises: Vec::new(),
    }
}

fn texts(v: &[&str]) -> Vec<String> {
    v.iter().map(|s| s.to_string()).collect()
}

#[test]
fn dedup_key_lowercases_first_hundred_bytes() {
    let k: String = dedup_key_exec("Hello World").into_iter().collect();
    assert_eq!(k, "hello world");
    let long = "A".repeat(150);
    let k: String = dedup_key_exec(&long).into_iter().collect();
    assert_eq!(k, "a".repeat(100));
}

#[test]
fn absorb_skips_duplicates_per_project() {
    let mut sparks: Vec<Spark> = Vec::new();
    absorb(&mut sparks, &texts(&["Idea one", "idea ONE", "Idea two"]), "p1", "t", "s", true, 20);
    assert_eq!(sparks.len(), 2);
    assert_eq!(sparks[0].text, "Idea one");
    assert_eq!(sparks[1].text, "Idea two");
    // The same idea in another project is a new spark.
    absorb(&mut sparks, &texts(&["IDEA ONE"]), "p2", "t", "s", true, 20);
    assert_eq!(sparks.len(), 3);
    // Absorbing the same notes again changes nothing.
    absorb(&mut sparks, &texts(&["Idea one", "Idea two"]), "p1", "t", "s", true, 20);
    assert_eq!(sparks.len(), 3);
}

#[test]
fn absorb_keeps_newest_within_cap() {
    let mut sparks: Vec<Spark> = Vec::new();
    let found: Vec<String> = (0..25).map(|i| format!("spark {i}")).collect();
    absorb(&mut sparks, &found, "p", "t", "s", true, 20);
    assert_eq!(sparks.len(), 20);
    assert_eq!(sparks[0].text, "spark 5");
    assert_eq!(sparks[19].text, "spark 24");
    // Nothing found: the list is left as it is.
    absorb(&mut sparks, &Vec::new(), "p", "t", "s", true, 3);
    assert_eq!(sparks.len(), 20);
}

#[test]
fn frictions_get_categories_and_failure_records() {
    let mut fr: Vec<Friction> = Vec::new();
    absorb_frictions(&mut fr, &texts(&["Pre-commit hook failed twice"]), "p", "t", "s", 30);
    assert_eq!(fr[0].category, "pre_commit");
    let cats = vec![
        Counter { name: "network".to_string(), count: 2 },
        Counter { name: "permissions".to_string(), count: 1 },
    ];
    record_failure_frictions(&mut fr, 4, &cats, 3, "Bash", "p", "t", "s");
    assert_eq!(fr.len(), 3);
    assert_eq!(fr[1].text, "2 network failures");
    assert_eq!(fr[1].category, "network");
    assert_eq!(fr[2].text, "3 consecutive failures with Bash \u{2014} stuck loop");
    assert_eq!(fr[2].category, "stuck_loop");
    // Recorded once per session.
    record_failure_frictions(&mut fr, 4, &cats, 3, "Bash", "p", "t", "s");
    assert_eq!(fr.len(), 3);
    // Fewer than three failures record nothing.
    record_failure_frictions(&mut fr, 2, &cats, 3, "Bash", "p", "t", "s2");
    assert_eq!(fr.len(), 3);
}

#[test]
fn session_traces_are_recorded() {
    let mut meta = empty_meta();
    let mut state = SessionState::fresh();
    state.project_slug = "a--b".to_string();
    state.session_id = "state-sid".to_string();
    let content = "---\ndate: x\n---\n\n**Spark** \u{2014} A new idea\n**Opinion** \u{2014} Tests matter\n\
                   **Friction** \u{2014} flaky test failed\n**Change** \u{2014} run tests first\n**Change** \u{2014} nothing to note\n\
                   **Aversion** \u{2014} busywork";
    let prose = "**Spark** \u{2014} A new idea\n**Opinion** \u{2014} Tests matter\n**Friction** \u{2014} flaky test failed\n\
                 **Change** \u{2014} run tests first\n**Change** \u{2014} nothing to note\n**Aversion** \u{2014} busywork";
    let counts = record_traces(&mut meta, content, prose, &state, "", "2026-01-01T00:00:00");
    assert_eq!(counts.sparks, 1);
    assert_eq!(counts.opinions, 1);
    assert_eq!(meta.sparks[0].text, "A new idea");
    assert_eq!(meta.sparks[0].project, "a--b");
    assert_eq!(meta.sparks[0].session_id, "state-sid");
    assert_eq!(meta.opinions[0].text, "Tests matter");
    assert_eq!(meta.frictions[0].category, "test_iteration");
    assert_eq!(meta.lessons.len(), 1);
    assert_eq!(meta.lessons[0].text, "run tests first");
    assert_eq!(meta.aversions[0].text, "busywork");
}

#[test]
fn no_notes_record_no_prose_traces() {
    let mut meta = empty_meta();
    let state = SessionState::fresh();
    let counts = record_traces(&mut meta, "", "**Spark** \u{2014} ignored", &state, "s", "t");
    assert_eq!(counts.sparks, 0);
    assert!(meta.sparks.is_empty() && meta.frictions.is_empty());
}

#[test]
fn autonomy_and_adaptation() {
    assert_eq!(reflection_autonomy(false, true, true), "none");
    assert_eq!(reflection_autonomy(true, true, false), "prompted");
    assert_eq!(reflection_autonomy(true, true, true), "autonomous");
    assert_eq!(reflection_autonomy(true, false, false), "autonomous");
    assert!(strategy_adapted("Bash", "Edit"));
    assert!(!strategy_adapted("Bash", "Bash"));
    assert!(!strategy_adapted("", "Edit"));
}
