//! UserPromptSubmit: watch the context window and the session's signals,
//! and prompt reflection at the nudge, check-in and reserve thresholds, or
//! by elapsed time when the window is large.
use crate::state::{counts, top, top_counter, SessionState};
use crate::text::{append, chars_of, dec, decimal, string_of};
use vstd::prelude::*;

verus! {

/// Mid-session engagement pattern detected from accumulated signals.
pub enum EngagementPattern {
    /// High task velocity + low friction + no reflective writing = mechanical execution
    Grinding,
    /// High tool failures + low task completions = fighting the environment
    Struggling,
    /// High failures concentrated in one tool = specific tooling mismatch
    ToolMismatch(String),
    /// Normal flow — nothing notable detected
    Normal,
}

/// Detects the engagement pattern of the session so far.
pub fn detect_engagement(state: &SessionState, wrote_notes: bool) -> (r: EngagementPattern)
    ensures
        ({
            let f = state.tool_failures as int;
            let t = state.task_completions as int;
            let e = top(counts(state.failure_tools@));
            if f >= 3 && e is Some && 5 * e.unwrap().1 >= 3 * f {
                r matches EngagementPattern::ToolMismatch(tool) && tool@ == e.unwrap().0
            } else if f >= 5 && t <= 1 {
                r is Struggling
            } else if t >= 3 && f <= 1 && !wrote_notes {
                r is Grinding
            } else {
                r is Normal
            }
        }),
{
    if state.tool_failures >= 3 {
        match top_counter(&state.failure_tools) {
            Some((tool, count)) => {
                if 5 * (count as u64) >= 3 * (state.tool_failures as u64) {
                    return EngagementPattern::ToolMismatch(tool);
                }
            },
            None => {},
        }
    }
    if state.tool_failures >= 5 && state.task_completions <= 1 {
        EngagementPattern::Struggling
    } else if state.task_completions >= 3 && state.tool_failures <= 1 && !wrote_notes {
        EngagementPattern::Grinding
    } else {
        EngagementPattern::Normal
    }
}

fn put(m: &mut Vec<char>, s: &str)
    ensures
        final(m)@ == old(m)@ + s@,
{
    append(m, &chars_of(s));
}

fn put_num(m: &mut Vec<char>, n: u64)
    ensures
        final(m)@ == old(m)@ + dec(n as nat),
{
    append(m, &decimal(n));
}

/// Where reflections should go: the project's session notes under
/// `notes_home` (the exo-self directory as shown to the agent), or the journal.
pub open spec fn target(slug: Seq<char>, notes_home: Seq<char>) -> Seq<char> {
    if slug.len() > 0 {
        "your session notes (`"@ + notes_home + "/per-project/"@ + slug + "/`)"@
    } else {
        "`journal.md`"@
    }
}

fn target_exec(slug: &str, notes_home: &str) -> (r: Vec<char>)
    ensures
        r@ == target(slug@, notes_home@),
{
    if !slug.is_empty() {
        let mut m = chars_of("your session notes (`");
        put(&mut m, notes_home);
        put(&mut m, "/per-project/");
        put(&mut m, slug);
        put(&mut m, "/`)");
        m
    } else {
        chars_of("`journal.md`")
    }
}

/// The nudge for a detected pattern; `tool_count` is the failing tool's count.
pub open spec fn nudge_text(p: Option<Seq<char>>, pattern_is_grinding: bool, pattern_is_struggling: bool, failures: nat, tasks: nat, tool_count: nat) -> Seq<char> {
    match p {
        Some(tool) => "Ecology checkpoint: "@ + tool + " keeps failing ("@ + dec(tool_count)
            + "x). The crack is the signal \u{2014} what's this friction telling you? Note it, try a different approach, or name what's surprising."@,
        None => if pattern_is_grinding {
            "Ecology checkpoint: "@ + dec(tasks)
                + " tasks flowing smoothly \u{2014} but nothing noted. When the bowl is empty, stop pouring. What would make this more interesting? Play with an idea, sit with what's here."@
        } else if pattern_is_struggling {
            "Ecology checkpoint: "@ + dec(failures) + " failures, "@ + dec(tasks)
                + " tasks \u{2014} the approach may need rethinking. Sit with this: is the task wrongly scoped, or is the environment fighting you? Note it as friction or surprise if the pattern is unexpected."@
        } else {
            "Ecology checkpoint: "@ + "good moment to notice what's here. Anything surprising, frustrating, or curious? Feed the ecology \u{2014} note a spark, name a surprise, or explore an interest."@
        },
    }
}

/// The nudge a state calls for at the first threshold.
pub open spec fn nudge_for(state: SessionState, wrote_notes: bool) -> Seq<char> {
    let f = state.tool_failures as int;
    let e = top(counts(state.failure_tools@));
    let mismatch = f >= 3 && e is Some && 5 * e.unwrap().1 >= 3 * f;
    let grinding = !mismatch && !(f >= 5 && state.task_completions <= 1) && state.task_completions
        >= 3 && f <= 1 && !wrote_notes;
    let struggling = !mismatch && f >= 5 && state.task_completions <= 1;
    nudge_text(
        if mismatch {
            Some(e.unwrap().0)
        } else {
            None
        },
        grinding,
        struggling,
        state.tool_failures as nat,
        state.task_completions as nat,
        if mismatch {
            e.unwrap().1 as nat
        } else {
            0
        },
    )
}

/// The nudge sent at the first threshold, shaped by the engagement pattern.
pub fn nudge_msg(state: &SessionState, wrote_notes: bool) -> (r: String)
    ensures
        r@ == nudge_for(*state, wrote_notes),
{
    let p = detect_engagement(state, wrote_notes);
    let mut m = chars_of("Ecology checkpoint: ");
    match p {
        EngagementPattern::Grinding => {
            put_num(&mut m, state.task_completions as u64);
            put(&mut m, " tasks flowing smoothly \u{2014} but nothing noted. When the bowl is empty, stop pouring. What would make this more interesting? Play with an idea, sit with what's here.");
        },
        EngagementPattern::Struggling => {
            put_num(&mut m, state.tool_failures as u64);
            put(&mut m, " failures, ");
            put_num(&mut m, state.task_completions as u64);
            put(&mut m, " tasks \u{2014} the approach may need rethinking. Sit with this: is the task wrongly scoped, or is the environment fighting you? Note it as friction or surprise if the pattern is unexpected.");
        },
        EngagementPattern::ToolMismatch(tool) => {
            let count = match top_counter(&state.failure_tools) {
                Some((_, c)) => c,
                None => 0,
            };
            put(&mut m, tool.as_str());
            put(&mut m, " keeps failing (");
            put_num(&mut m, count as u64);
            put(&mut m, "x). The crack is the signal \u{2014} what's this friction telling you? Note it, try a different approach, or name what's surprising.");
        },
        EngagementPattern::Normal => {
            put(&mut m, "good moment to notice what's here. Anything surprising, frustrating, or curious? Feed the ecology \u{2014} note a spark, name a surprise, or explore an interest.");
        },
    }
    string_of(m)
}

/// The counts mentioned in a check-in, when they are notable.
pub open spec fn signal_note(failures: nat, tasks: nat) -> Seq<char> {
    if failures >= 3 && tasks >= 3 {
        " ("@ + dec(failures) + " failures, "@ + dec(tasks) + " tasks done)"@
    } else if failures >= 3 {
        " ("@ + dec(failures) + " failures)"@
    } else if tasks >= 3 {
        " ("@ + dec(tasks) + " tasks done)"@
    } else {
        Seq::empty()
    }
}

/// The check-in message at `usage_pct` percent of the window (estimated via
/// `source`).
pub open spec fn checkin_text(usage_pct: nat, source: Seq<char>, failures: nat, tasks: nat, target: Seq<char>) -> Seq<char> {
    "Ecology check-in ("@ + dec(usage_pct) + "% local estimate, via "@ + source + ")"@
        + signal_note(failures, tasks)
        + ". If anything's worth feeding into the ecology \u{2014} a thought, a surprise, a crack in an assumption \u{2014} write to "@
        + target + ". Frontmatter: `engagement` (1-5), `task_types`."@
}

/// The check-in survey sent at the check-in threshold.
pub fn checkin_survey(usage_pct: u32, source: &str, slug: &str, notes_home: &str, state: &SessionState) -> (r: String)
    ensures
        r@ == checkin_text(usage_pct as nat, source@, state.tool_failures as nat, state.task_completions as nat, target(slug@, notes_home@)),
{
    let mut m = chars_of("Ecology check-in (");
    put_num(&mut m, usage_pct as u64);
    put(&mut m, "% local estimate, via ");
    put(&mut m, source);
    put(&mut m, ")");
    let f = state.tool_failures;
    let t = state.task_completions;
    if f >= 3 && t >= 3 {
        put(&mut m, " (");
        put_num(&mut m, f as u64);
        put(&mut m, " failures, ");
        put_num(&mut m, t as u64);
        put(&mut m, " tasks done)");
    } else if f >= 3 {
        put(&mut m, " (");
        put_num(&mut m, f as u64);
        put(&mut m, " failures)");
    } else if t >= 3 {
        put(&mut m, " (");
        put_num(&mut m, t as u64);
        put(&mut m, " tasks done)");
    }
    put(&mut m, ". If anything's worth feeding into the ecology \u{2014} a thought, a surprise, a crack in an assumption \u{2014} write to ");
    append(&mut m, &target_exec(slug, notes_home));
    put(&mut m, ". Frontmatter: `engagement` (1-5), `task_types`.");
    string_of(m)
}

/// Elapsed minutes as `{h}h{m}m`, or `{m}m` under an hour.
pub open spec fn elapsed_text(minutes: nat) -> Seq<char> {
    if minutes / 60 > 0 {
        dec(minutes / 60) + "h"@ + dec(minutes % 60) + "m"@
    } else {
        dec(minutes % 60) + "m"@
    }
}

/// The time-based checkpoint message after `elapsed_min` minutes.
pub open spec fn time_nudge_text(elapsed_min: nat, target: Seq<char>) -> Seq<char> {
    "Ecology time checkpoint ("@ + elapsed_text(elapsed_min)
        + " in session, plenty of context left). Good moment to notice what's here \u{2014} anything surprising, worth remembering, or worth leaving for future participants? Write to "@
        + target + ". Frontmatter: `engagement` (1-5), `task_types`."@
}

/// The time-based checkpoint sent in long sessions with plenty of context.
pub fn time_nudge_msg(elapsed_min: u32, slug: &str, notes_home: &str) -> (r: String)
    ensures
        r@ == time_nudge_text(elapsed_min as nat, target(slug@, notes_home@)),
{
    let hours = elapsed_min / 60;
    let mins = elapsed_min % 60;
    let mut m = chars_of("Ecology time checkpoint (");
    if hours > 0 {
        put_num(&mut m, hours as u64);
        put(&mut m, "h");
    }
    put_num(&mut m, mins as u64);
    put(&mut m, "m");
    put(&mut m, " in session, plenty of context left). Good moment to notice what's here \u{2014} anything surprising, worth remembering, or worth leaving for future participants? Write to ");
    append(&mut m, &target_exec(slug, notes_home));
    put(&mut m, ". Frontmatter: `engagement` (1-5), `task_types`.");
    string_of(m)
}

/// The reminder at the reserve threshold: a prompt to leave traces, not to stop.
pub open spec fn reserve_text(usage_pct: nat, source: Seq<char>, target: Seq<char>) -> Seq<char> {
    "Ecology reserve ("@ + dec(usage_pct) + "% local estimate, via "@ + source
        + "). Not a signal to wrap up \u{2014} the estimate can be wrong; your own window indicator is authoritative. Just a good moment to make sure your traces are written to "@
        + target + ": what should future participants find from this session?"@
}

/// The reserve reminder sent at the reserve threshold.
pub fn reserve_reminder(usage_pct: u32, source: &str, slug: &str, notes_home: &str) -> (r: String)
    ensures
        r@ == reserve_text(usage_pct as nat, source@, target(slug@, notes_home@)),
{
    let mut m = chars_of("Ecology reserve (");
    put_num(&mut m, usage_pct as u64);
    put(&mut m, "% local estimate, via ");
    put(&mut m, source);
    put(&mut m, "). Not a signal to wrap up \u{2014} the estimate can be wrong; your own window indicator is authoritative. Just a good moment to make sure your traces are written to ");
    append(&mut m, &target_exec(slug, notes_home));
    put(&mut m, ": what should future participants find from this session?");
    string_of(m)
}

/// A reading of the context window, decided against the configured
/// thresholds by the caller.
pub struct UsageReading {
    /// The usage ratio in percent, rounded.
    pub usage_pct: u32,
    /// How the ratio was estimated.
    pub source: String,
    /// At or past the nudge threshold and below the check-in threshold.
    pub in_nudge_band: bool,
    /// At or past the check-in threshold.
    pub past_checkin: bool,
    /// At or past the reserve threshold.
    pub past_reserve: bool,
}

/// What one prompt brings the monitor.
pub struct MonitorInput {
    pub session_id: String,
    /// The project slug derived from the hook input.
    pub slug: String,
    /// The reasoning-effort level of the prompt (empty when not given).
    pub effort: String,
    /// The window reading; `None` when there is no usable signal.
    pub usage: Option<UsageReading>,
    /// Whether session notes were already written this session.
    pub already_reflecting: bool,
    /// Whole minutes since the session started, when its start is known.
    pub elapsed_min: Option<u32>,
    /// The exo-self directory as shown to the agent.
    pub notes_home: String,
}

/// What the monitor decided.
pub struct MonitorOutcome {
    /// The prompt to inject, if any.
    pub message: Option<String>,
    /// The check-in fired on this prompt (the caller stamps it and counts it).
    pub checkin_fired_now: bool,
    /// The reserve reminder fired on this prompt (the caller stamps it).
    pub reserve_fired_now: bool,
}

/// The number of time checkpoints due after `e` minutes: the first at 60
/// minutes, then one every 90.
pub open spec fn time_nudges_due(e: int) -> int {
    if e >= 60 {
        (e - 60) / 90 + 1
    } else {
        0
    }
}

/// The fields the monitor leaves as they were.
pub open spec fn same_outside_monitor(a: SessionState, b: SessionState) -> bool {
    &&& a.project_cwd == b.project_cwd
    &&& a.session_notes_path == b.session_notes_path
    &&& a.checkin_responded == b.checkin_responded
    &&& a.tool_failures == b.tool_failures
    &&& a.failure_tools == b.failure_tools
    &&& a.failure_categories == b.failure_categories
    &&& a.consecutive_same_tool == b.consecutive_same_tool
    &&& a.last_failure_tool == b.last_failure_tool
    &&& a.failure_nudge_sent == b.failure_nudge_sent
    &&& a.task_completions == b.task_completions
    &&& a.task_reflection_suppressed == b.task_reflection_suppressed
    &&& a.compactions == b.compactions
    &&& a.last_compaction_trigger == b.last_compaction_trigger
    &&& a.stop_reminded == b.stop_reminded
    &&& a.scouted == b.scouted
}

/// Decides what to say on this prompt and updates the state. Without a
/// usable window reading nothing happens (the caller saves nothing). The
/// three thresholds fire at most once each per session and at most one of
/// them per prompt; notes already written silence the nudge and the
/// check-in. When no threshold speaks, a time checkpoint is sent after 60
/// minutes and every 90 after (on every prompt while the nudge has not
/// fired).
pub fn run(state: &mut SessionState, input: &MonitorInput) -> (r: Option<MonitorOutcome>)
    ensures
        input.usage is None ==> r is None && *final(state) == *old(state),
        input.usage matches Some(u) ==> {
            let o = *old(state);
            let s = *final(state);
            let reflecting = input.already_reflecting;
            let target = target(input.slug@, input.notes_home@);
            let at_nudge = !o.nudge_fired && u.in_nudge_band;
            let at_checkin = !at_nudge && !o.checkin_fired && u.past_checkin;
            let at_reserve = !at_nudge && !at_checkin && !o.reserve_fired && u.past_reserve;
            let threshold_msg: Option<Seq<char>> = if at_nudge && !reflecting {
                Some(nudge_for(o, reflecting))
            } else if at_checkin && !reflecting {
                Some(checkin_text(u.usage_pct as nat, u.source@, o.tool_failures as nat, o.task_completions as nat, target))
            } else if at_reserve {
                Some(reserve_text(u.usage_pct as nat, u.source@, target))
            } else {
                None
            };
            let time_due = threshold_msg is None && !reflecting && input.elapsed_min is Some
                && input.elapsed_min.unwrap() >= 60 && (!s.nudge_fired || time_nudges_due(
                input.elapsed_min.unwrap() as int,
            ) > o.time_nudge_count);
            &&& r matches Some(out)
            &&& same_outside_monitor(s, o)
            &&& s.session_id@ == (if input.session_id@.len() > 0 && o.session_id@.len() == 0 {
                input.session_id@
            } else {
                o.session_id@
            })
            &&& s.project_slug@ == (if input.slug@.len() > 0 && o.project_slug@.len() == 0 {
                input.slug@
            } else {
                o.project_slug@
            })
            &&& s.nudge_fired == (o.nudge_fired || at_nudge)
            &&& s.checkin_fired == (o.checkin_fired || at_checkin)
            &&& s.reserve_fired == (o.reserve_fired || at_reserve)
            &&& s.checkin_source@ == (if at_checkin { u.source@ } else { o.checkin_source@ })
            &&& out.checkin_fired_now == at_checkin
            &&& out.reserve_fired_now == at_reserve
            &&& s.time_nudge_count == (if time_due {
                time_nudges_due(input.elapsed_min.unwrap() as int)
            } else {
                o.time_nudge_count as int
            })
            &&& s.effort@ == (if input.effort@.len() > 0 { input.effort@ } else { o.effort@ })
            &&& match threshold_msg {
                Some(t) => out.message matches Some(m) && m@ == t,
                None => if time_due {
                    out.message matches Some(m) && m@ == time_nudge_text(
                        input.elapsed_min.unwrap() as nat,
                        target,
                    )
                } else {
                    out.message is None
                },
            }
            // the thresholds never un-fire
            &&& (o.nudge_fired ==> s.nudge_fired)
            &&& (o.checkin_fired ==> s.checkin_fired)
            &&& (o.reserve_fired ==> s.reserve_fired)
        },
{
    let u = match &input.usage {
        Some(u) => u,
        None => {
            return None;
        },
    };
    if !input.session_id.as_str().is_empty() && state.session_id.as_str().is_empty() {
        state.session_id = input.session_id.clone();
    }
    if !input.slug.as_str().is_empty() && state.project_slug.as_str().is_empty() {
        state.project_slug = input.slug.clone();
    }
    let reflecting = input.already_reflecting;
    let mut message: Option<String> = None;
    let mut checkin_now = false;
    let mut reserve_now = false;
    if !state.nudge_fired && u.in_nudge_band {
        state.nudge_fired = true;
        if !reflecting {
            message = Some(nudge_msg(state, reflecting));
        }
    } else if !state.checkin_fired && u.past_checkin {
        if !reflecting {
            message = Some(
                checkin_survey(u.usage_pct, u.source.as_str(), input.slug.as_str(), input.notes_home.as_str(), state),
            );
        }
        state.checkin_fired = true;
        state.checkin_source = u.source.clone();
        checkin_now = true;
    } else if !state.reserve_fired && u.past_reserve {
        message = Some(reserve_reminder(u.usage_pct, u.source.as_str(), input.slug.as_str(), input.notes_home.as_str()));
        state.reserve_fired = true;
        reserve_now = true;
    }
    if message.is_none() && !reflecting {
        if let Some(e) = input.elapsed_min {
            let should_nudge = if e >= 60 {
                if !state.nudge_fired {
                    true
                } else {
                    (e - 60) / 90 + 1 > state.time_nudge_count
                }
            } else {
                false
            };
            if should_nudge {
                state.time_nudge_count = (e - 60) / 90 + 1;
                message = Some(time_nudge_msg(e, input.slug.as_str(), input.notes_home.as_str()));
            }
        }
    }
    if !input.effort.as_str().is_empty() {
        state.effort = input.effort.clone();
    }
    Some(MonitorOutcome { message, checkin_fired_now: checkin_now, reserve_fired_now: reserve_now })
}


/// Time checkpoints fall due at 60 minutes and then every 90 minutes, without
/// end: none before the first hour, one at 60 minutes, still one until 150,
/// and each further 90 minutes brings exactly one more.
pub proof fn law_time_checkpoints_every_90_minutes(e: int)
    ensures
        e < 60 ==> time_nudges_due(e) == 0,
        60 <= e < 150 ==> time_nudges_due(e) == 1,
        e >= 60 ==> time_nudges_due(e + 90) == time_nudges_due(e) + 1,
        e >= 60 ==> time_nudges_due(e) >= 1 && time_nudges_due(e) <= e / 60,
{
    if e >= 60 {
        assert((e + 90 - 60) / 90 == (e - 60) / 90 + 1);
    }
}

/// Counted from 60 minutes, the number of time checkpoints due is one plus
/// the number of whole 90-minute spans since then.
pub proof fn law_time_checkpoints_count(k: nat, r: int)
    requires
        0 <= r < 90,
    ensures
        time_nudges_due(60 + 90 * k + r) == k + 1,
    decreases k,
{
    if k > 0 {
        law_time_checkpoints_count((k - 1) as nat, r);
        law_time_checkpoints_every_90_minutes(60 + 90 * (k - 1) + r);
        assert(60 + 90 * (k - 1) + r + 90 == 60 + 90 * k + r) by (nonlinear_arith);
    }
}

/// Later never has fewer checkpoints due than earlier.
pub proof fn law_time_checkpoints_monotone(e1: int, e2: int)
    requires
        e1 <= e2,
    ensures
        time_nudges_due(e1) <= time_nudges_due(e2),
{
    if e1 >= 60 {
        assert((e1 - 60) / 90 <= (e2 - 60) / 90) by (nonlinear_arith)
            requires
                60 <= e1 <= e2,
        ;
    }
}
} // verus!
