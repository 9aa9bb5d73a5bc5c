use exo_self::commands::context_monitor::{
    self, checkin_survey, detect_engagement, reserve_reminder, time_nudge_msg, EngagementPattern,
    MonitorInput, UsageReading,
};
use exo_self::commands::failure_tracker::{self, classify_failure};
use exo_self::commands::{pre_tool_use, task_completed, teammate_idle};
use exo_self::hook_io::HookInput;
use exo_self::nudging;
use exo_self::state::{bump, top_counter, Counter, SessionState};

fn input(tool: &str, error: &str, command: &str) -> HookInput {
    HookInput {
        session_id: "s1".to_string(),
        cwd: String::new(),
        transcript_path: String::new(),
        trigger: String::new(),
        reason: String::new(),
        tool_name: tool.to_string(),
        stop_hook_active: false,
        error: error.to_string(),
        effort: String::new(),
        agent_type: String::new(),
        tool_command: command.to_string(),
    }
}

#[test]
fn classify_failure_categories() {
    assert_eq!(classify_failure(&input("Bash", "Permission denied", "ls")), "permissions");
    assert_eq!(classify_failure(&input("Edit", "String is NOT UNIQUE in file", "")), "edit_ambiguous");
    assert_eq!(classify_failure(&input("Edit", "old_string not found", "")), "edit_stale");
    assert_eq!(classify_failure(&input("Bash", "exit 1", "cargo clippy --all")), "pre_commit");
    assert_eq!(classify_failure(&input("Bash", "exit 1", "PYTEST -x")), "test_iteration");
    assert_eq!(classify_failure(&input("Bash", "exit 1", "make all")), "build_failure");
    assert_eq!(classify_failure(&input("Bash", "exit 1", "docker ps")), "infrastructure");
    assert_eq!(classify_failure(&input("Bash", "exit 1", "git push")), "git_operation");
    assert_eq!(classify_failure(&input("Read", "error[E0308]: mismatched", "")), "type_system");
    assert_eq!(classify_failure(&input("Read", "No such file or directory", "")), "file_not_found");
    assert_eq!(classify_failure(&input("WebFetch", "request timed out", "")), "network");
    assert_eq!(classify_failure(&input("Read", "e0 in module", "")), "build_failure");
    assert_eq!(classify_failure(&input("Read", "e0", "")), "unclassified");
    assert_eq!(classify_failure(&input("Read", "waiting for file lock", "")), "lock_contention");
    assert_eq!(classify_failure(&input("Read", "Syntax error near", "")), "syntax_error");
    assert_eq!(classify_failure(&input("Read", "something odd", "")), "unclassified");
    // The Edit rules only apply to Edit; bash rules need a command.
    assert_eq!(classify_failure(&input("Write", "not unique", "")), "unclassified");
    assert_eq!(classify_failure(&input("Bash", "exit 1", "")), "unclassified");
}

#[test]
fn tallies_count_in_first_seen_order() {
    let mut v: Vec<Counter> = Vec::new();
    bump(&mut v, "Bash");
    bump(&mut v, "Edit");
    bump(&mut v, "Edit");
    assert_eq!(v.len(), 2);
    assert_eq!(v[0].name, "Bash");
    assert_eq!(v[1].count, 2);
    assert_eq!(top_counter(&v), Some(("Edit".to_string(), 2)));
    bump(&mut v, "Bash");
    // Ties go to the first counter.
    assert_eq!(top_counter(&v), Some(("Bash".to_string(), 2)));
    assert_eq!(top_counter(&Vec::new()), None);
}

#[test]
fn failure_tracker_nudges_once_at_threshold() {
    let mut state = SessionState::fresh();
    let i = input("Bash", "permission denied", "ls");
    assert_eq!(failure_tracker::run(&mut state, &i, 3), None);
    assert_eq!(failure_tracker::run(&mut state, &i, 3), None);
    let msg = failure_tracker::run(&mut state, &i, 3);
    assert_eq!(
        msg.as_deref(),
        Some(
            "Exo-self: 3 tool failures (Bash: 3x, category: permissions). Bash has failed 3 times \
             consecutively \u{2014} you may be stuck. Worth noting in your session notes if it's causing friction."
        )
    );
    assert!(state.failure_nudge_sent);
    assert_eq!(state.tool_failures, 3);
    assert_eq!(state.consecutive_same_tool, 3);
    // Past the threshold nothing more is said.
    assert_eq!(failure_tracker::run(&mut state, &i, 3), None);
}

#[test]
fn failure_tracker_unknown_tool_and_streak_reset() {
    let mut state = SessionState::fresh();
    failure_tracker::run(&mut state, &input("", "x", ""), 10);
    assert_eq!(state.failure_tools[0].name, "unknown");
    failure_tracker::run(&mut state, &input("Edit", "not found", ""), 10);
    assert_eq!(state.consecutive_same_tool, 1);
    assert_eq!(state.last_failure_tool, "Edit");
    assert_eq!(state.failure_categories.len(), 2);
    let total: u32 = state.failure_tools.iter().map(|c| c.count).sum();
    assert_eq!(total, state.tool_failures);
}

#[test]
fn failure_tracker_ignores_missing_session() {
    let mut state = SessionState::fresh();
    let mut i = input("Bash", "x", "");
    i.session_id = String::new();
    assert_eq!(failure_tracker::run(&mut state, &i, 1), None);
    assert_eq!(state.tool_failures, 0);
}

fn state_with(failures: u32, tasks: u32, tools: &[(&str, u32)]) -> SessionState {
    let mut s = SessionState::fresh();
    s.tool_failures = failures;
    s.task_completions = tasks;
    s.failure_tools = tools
        .iter()
        .map(|(n, c)| Counter { name: n.to_string(), count: *c })
        .collect();
    s
}

#[test]
fn engagement_patterns() {
    // 3 of 5 failures is exactly 60%.
    match detect_engagement(&state_with(5, 0, &[("Bash", 3), ("Edit", 2)]), false) {
        EngagementPattern::ToolMismatch(t) => assert_eq!(t, "Bash"),
        _ => panic!("expected a tool mismatch"),
    }
    assert!(matches!(
        detect_engagement(&state_with(5, 1, &[("Bash", 2), ("Edit", 2), ("Read", 1)]), false),
        EngagementPattern::Struggling
    ));
    assert!(matches!(detect_engagement(&state_with(0, 3, &[]), false), EngagementPattern::Grinding));
    assert!(matches!(detect_engagement(&state_with(0, 3, &[]), true), EngagementPattern::Normal));
}

#[test]
fn monitor_messages() {
    let s = state_with(4, 3, &[]);
    assert_eq!(
        checkin_survey(75, "tokens", "a--b", "~/x/exo-self", &s),
        "Ecology check-in (75% local estimate, via tokens) (4 failures, 3 tasks done). If anything's \
         worth feeding into the ecology \u{2014} a thought, a surprise, a crack in an assumption \u{2014} write \
         to your session notes (`~/x/exo-self/per-project/a--b/`). Frontmatter: `engagement` (1-5), `task_types`."
    );
    assert_eq!(
        time_nudge_msg(90, "", "~/x/exo-self"),
        "Ecology time checkpoint (1h30m in session, plenty of context left). Good moment to notice \
         what's here \u{2014} anything surprising, worth remembering, or worth leaving for future \
         participants? Write to `journal.md`. Frontmatter: `engagement` (1-5), `task_types`."
    );
    assert!(time_nudge_msg(45, "", "h").starts_with("Ecology time checkpoint (45m in session"));
    assert_eq!(
        reserve_reminder(90, "filesize", "", "h"),
        "Ecology reserve (90% local estimate, via filesize). Not a signal to wrap up \u{2014} the estimate \
         can be wrong; your own window indicator is authoritative. Just a good moment to make sure your \
         traces are written to `journal.md`: what should future participants find from this session?"
    );
}

fn reading(pct: u32, band: bool, checkin: bool, reserve: bool) -> UsageReading {
    UsageReading {
        usage_pct: pct,
        source: "tokens".to_string(),
        in_nudge_band: band,
        past_checkin: checkin,
        past_reserve: reserve,
    }
}

fn monitor_input(usage: Option<UsageReading>, elapsed: Option<u32>) -> MonitorInput {
    MonitorInput {
        session_id: "s9".to_string(),
        slug: "a--b".to_string(),
        effort: String::new(),
        usage,
        already_reflecting: false,
        elapsed_min: elapsed,
        notes_home: "~/x/exo-self".to_string(),
    }
}

#[test]
fn monitor_without_signal_does_nothing() {
    let mut s = SessionState::fresh();
    assert!(context_monitor::run(&mut s, &monitor_input(None, Some(200))).is_none());
    assert!(s.session_id.is_empty());
}

#[test]
fn monitor_thresholds_fire_once_in_order() {
    let mut s = SessionState::fresh();
    let out = context_monitor::run(&mut s, &monitor_input(Some(reading(62, true, false, false)), None)).unwrap();
    assert!(out.message.unwrap().starts_with("Ecology checkpoint: good moment"));
    assert!(s.nudge_fired);
    assert_eq!(s.session_id, "s9");
    assert_eq!(s.project_slug, "a--b");
    let out = context_monitor::run(&mut s, &monitor_input(Some(reading(63, true, false, false)), None)).unwrap();
    assert!(out.message.is_none());
    let out = context_monitor::run(&mut s, &monitor_input(Some(reading(90, false, true, true)), None)).unwrap();
    assert!(out.checkin_fired_now && !out.reserve_fired_now);
    assert!(out.message.unwrap().starts_with("Ecology check-in (90%"));
    assert_eq!(s.checkin_source, "tokens");
    let out = context_monitor::run(&mut s, &monitor_input(Some(reading(91, false, true, true)), None)).unwrap();
    assert!(out.reserve_fired_now);
    assert!(out.message.unwrap().starts_with("Ecology reserve (91%"));
}

#[test]
fn monitor_time_checkpoints() {
    let mut s = SessionState::fresh();
    s.nudge_fired = true;
    let quiet = reading(10, false, false, false);
    let out = context_monitor::run(&mut s, &monitor_input(Some(quiet), Some(59))).unwrap();
    assert!(out.message.is_none());
    let out = context_monitor::run(&mut s, &monitor_input(Some(reading(10, false, false, false)), Some(60))).unwrap();
    assert!(out.message.unwrap().starts_with("Ecology time checkpoint (1h0m"));
    assert_eq!(s.time_nudge_count, 1);
    let out = context_monitor::run(&mut s, &monitor_input(Some(reading(10, false, false, false)), Some(149))).unwrap();
    assert!(out.message.is_none());
    let out = context_monitor::run(&mut s, &monitor_input(Some(reading(10, false, false, false)), Some(150))).unwrap();
    assert!(out.message.is_some());
    assert_eq!(s.time_nudge_count, 2);
}

#[test]
fn plan_mode_is_denied() {
    let d = pre_tool_use::run("EnterPlanMode").unwrap();
    assert_eq!(d.permission_decision, "deny");
    assert!(d.permission_decision_reason.starts_with("Plan mode is disabled by exo-self."));
    assert!(pre_tool_use::run("Read").is_none());
    assert!(teammate_idle::run().is_none());
}

#[test]
fn task_completions_are_counted() {
    let mut s = SessionState::fresh();
    assert!(task_completed::run(&mut s, "s1"));
    assert_eq!(s.task_completions, 1);
    assert!(!task_completed::run(&mut s, ""));
    assert_eq!(s.task_completions, 1);
}

#[test]
fn every_fifth_task_nudges() {
    let mut s = SessionState::fresh();
    for _ in 0..4 {
        assert!(nudging::task_completed::run(&mut s, "s1").is_none());
    }
    let out = nudging::task_completed::run(&mut s, "s1").unwrap();
    assert_eq!(out.hook_specific_output.hook_event_name, "TaskCompleted");
    assert_eq!(
        out.hook_specific_output.additional_context,
        "Exo-self: 5 tasks done. Anything worth noting in your session notes?"
    );
    s.task_reflection_suppressed = true;
    for _ in 0..5 {
        assert!(nudging::task_completed::run(&mut s, "s1").is_none());
    }
}
