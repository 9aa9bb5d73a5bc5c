//! PostToolUseFailure: tally failures by tool and by cause, and nudge once
//! when the session's failure count reaches the configured threshold.
use crate::hook_io::HookInput;
use crate::markdown::chars_eq;
use crate::state::{
    below_max, bump, bumped, counts, lemma_distinct_bumped, lemma_total_bumped,
    top, top_counter, SessionState,
};
use crate::text::{
    append, chars_of, contains, dec, decimal, fits_exec, has, lowercase_of, lower, byte_len, occurs_at,
    starts_with, starts_with_exec, string_of,
};
use vstd::prelude::*;

verus! {

/// The friction category of a failure of `tool`, from the lower-cased error
/// message `err` and the lower-cased shell command `cmd` (empty when the tool
/// input carries none).
pub open spec fn failure_category(tool: Seq<char>, err: Seq<char>, cmd: Seq<char>) -> Seq<char> {
    let bash = tool == "Bash"@ && cmd.len() > 0;
    if contains(err, "permission denied"@) || contains(err, "eacces"@) || contains(err, "sandbox"@)
        || contains(err, "denied this tool"@) {
        "permissions"@
    } else if tool == "Edit"@ && (contains(err, "not unique"@) || contains(
        err,
        "multiple occurrences"@,
    )) {
        "edit_ambiguous"@
    } else if tool == "Edit"@ && (contains(err, "not found"@) || contains(err, "does not contain"@)) {
        "edit_stale"@
    } else if bash && (contains(cmd, "pre-commit"@) || contains(cmd, "clippy"@) || contains(
        cmd,
        "ruff"@,
    ) || contains(cmd, "eslint"@) || contains(cmd, "cargo fmt"@) || contains(cmd, "prettier"@)) {
        "pre_commit"@
    } else if bash && (contains(cmd, "cargo test"@) || contains(cmd, "pytest"@) || contains(
        cmd,
        "npm test"@,
    ) || contains(cmd, "jest"@) || contains(cmd, "vitest"@)) {
        "test_iteration"@
    } else if bash && (contains(cmd, "cargo build"@) || contains(cmd, "cargo check"@) || contains(
        cmd,
        "npm run build"@,
    ) || contains(cmd, "make"@) || contains(cmd, "gcc"@) || contains(cmd, "rustc"@)) {
        "build_failure"@
    } else if bash && (contains(cmd, "cdk"@) || contains(cmd, "cloudformation"@) || contains(
        cmd,
        "terraform"@,
    ) || contains(cmd, "kubectl"@) || contains(cmd, "docker"@) || contains(cmd, "aws "@)
        || contains(cmd, "gcloud"@)) {
        "infrastructure"@
    } else if bash && starts_with(cmd, "git "@) {
        "git_operation"@
    } else if contains(err, "type mismatch"@) || contains(err, "e0308"@) || contains(
        err,
        "expected type"@,
    ) || contains(err, "cannot find type"@) {
        "type_system"@
    } else if contains(err, "no such file"@) || contains(err, "file not found"@) || contains(
        err,
        "does not exist"@,
    ) {
        "file_not_found"@
    } else if contains(err, "connection refused"@) || contains(err, "timeout"@) || contains(
        err,
        "timed out"@,
    ) || contains(err, "dns"@) || contains(err, "could not resolve"@) || contains(err, "ssl"@)
        || contains(err, "certificate"@) {
        "network"@
    } else if contains(err, "cargo"@) || contains(err, "rustc"@) || contains(err, "unresolved"@)
        || (contains(err, "e0"@) && byte_len(err) > 4) {
        "build_failure"@
    } else if contains(err, "lock"@) || contains(err, "text file busy"@) || contains(
        err,
        "resource busy"@,
    ) || contains(err, "blocking"@) {
        "lock_contention"@
    } else if contains(err, "syntax error"@) || contains(err, "parse error"@) || contains(
        err,
        "unexpected token"@,
    ) {
        "syntax_error"@
    } else {
        "unclassified"@
    }
}

/// Classify a tool failure into a friction category based on tool_input and error.
pub fn classify_failure(input: &HookInput) -> (r: String)
    ensures
        r@ == failure_category(
            input.tool_name@,
            lowercase_of(input.error@),
            lowercase_of(input.tool_command@),
        ),
{
    let err = lower(&chars_of(input.error.as_str()));
    let cmd = lower(&chars_of(input.tool_command.as_str()));
    let tool = chars_of(input.tool_name.as_str());
    let is_edit = chars_eq(&tool, &chars_of("Edit"));
    let bash = chars_eq(&tool, &chars_of("Bash")) && cmd.len() > 0;
    if has(&err, "permission denied") || has(&err, "eacces") || has(&err, "sandbox") || has(
        &err,
        "denied this tool",
    ) {
        return "permissions".to_owned();
    }
    if is_edit && (has(&err, "not unique") || has(&err, "multiple occurrences")) {
        return "edit_ambiguous".to_owned();
    }
    if is_edit && (has(&err, "not found") || has(&err, "does not contain")) {
        return "edit_stale".to_owned();
    }
    if bash && (has(&cmd, "pre-commit") || has(&cmd, "clippy") || has(&cmd, "ruff") || has(
        &cmd,
        "eslint",
    ) || has(&cmd, "cargo fmt") || has(&cmd, "prettier")) {
        return "pre_commit".to_owned();
    }
    if bash && (has(&cmd, "cargo test") || has(&cmd, "pytest") || has(&cmd, "npm test") || has(
        &cmd,
        "jest",
    ) || has(&cmd, "vitest")) {
        return "test_iteration".to_owned();
    }
    if bash && (has(&cmd, "cargo build") || has(&cmd, "cargo check") || has(&cmd, "npm run build")
        || has(&cmd, "make") || has(&cmd, "gcc") || has(&cmd, "rustc")) {
        return "build_failure".to_owned();
    }
    if bash && (has(&cmd, "cdk") || has(&cmd, "cloudformation") || has(&cmd, "terraform") || has(
        &cmd,
        "kubectl",
    ) || has(&cmd, "docker") || has(&cmd, "aws ") || has(&cmd, "gcloud")) {
        return "infrastructure".to_owned();
    }
    if bash && starts_with_exec(&cmd, &chars_of("git ")) {
        return "git_operation".to_owned();
    }
    if has(&err, "type mismatch") || has(&err, "e0308") || has(&err, "expected type") || has(
        &err,
        "cannot find type",
    ) {
        return "type_system".to_owned();
    }
    if has(&err, "no such file") || has(&err, "file not found") || has(&err, "does not exist") {
        return "file_not_found".to_owned();
    }
    if has(&err, "connection refused") || has(&err, "timeout") || has(&err, "timed out") || has(
        &err,
        "dns",
    ) || has(&err, "could not resolve") || has(&err, "ssl") || has(&err, "certificate") {
        return "network".to_owned();
    }
    if has(&err, "cargo") || has(&err, "rustc") || has(&err, "unresolved") || (has(&err, "e0")
        && !fits_exec(&err, 4)) {
        return "build_failure".to_owned();
    }
    if has(&err, "lock") || has(&err, "text file busy") || has(&err, "resource busy") || has(
        &err,
        "blocking",
    ) {
        return "lock_contention".to_owned();
    }
    if has(&err, "syntax error") || has(&err, "parse error") || has(&err, "unexpected token") {
        return "syntax_error".to_owned();
    }
    "unclassified".to_owned()
}

/// The tool name recorded for a failure (`"unknown"` when the input has none).
pub open spec fn failing_tool(tool_name: Seq<char>) -> Seq<char> {
    if tool_name.len() == 0 {
        "unknown"@
    } else {
        tool_name
    }
}

/// The sentence added when one tool keeps failing in a row.
pub open spec fn stuck_note(last_tool: Seq<char>, consecutive: nat) -> Seq<char> {
    if consecutive >= 3 {
        " "@ + last_tool + " has failed "@ + dec(consecutive)
            + " times consecutively \u{2014} you may be stuck."@
    } else {
        Seq::<char>::empty()
    }
}

/// The one-time nudge sent when the failure threshold is reached.
pub open spec fn failure_message(
    failures: nat,
    top_tool: Seq<char>,
    top_count: nat,
    top_category: Seq<char>,
    last_tool: Seq<char>,
    consecutive: nat,
) -> Seq<char> {
    "Exo-self: "@ + dec(failures) + " tool failures ("@ + top_tool + ": "@ + dec(top_count)
        + "x, category: "@ + top_category + ")."@ + stuck_note(last_tool, consecutive)
        + " Worth noting in your session notes if it's causing friction."@
}

/// The fields a recorded failure leaves as they were.
pub open spec fn same_outside_failures(a: SessionState, b: SessionState) -> bool {
    &&& a.session_id == b.session_id
    &&& a.project_cwd == b.project_cwd
    &&& a.project_slug == b.project_slug
    &&& a.session_notes_path == b.session_notes_path
    &&& a.nudge_fired == b.nudge_fired
    &&& a.checkin_fired == b.checkin_fired
    &&& a.reserve_fired == b.reserve_fired
    &&& a.checkin_responded == b.checkin_responded
    &&& a.checkin_source == b.checkin_source
    &&& a.task_completions == b.task_completions
    &&& a.task_reflection_suppressed == b.task_reflection_suppressed
    &&& a.compactions == b.compactions
    &&& a.last_compaction_trigger == b.last_compaction_trigger
    &&& a.stop_reminded == b.stop_reminded
    &&& a.scouted == b.scouted
    &&& a.time_nudge_count == b.time_nudge_count
    &&& a.effort == b.effort
}

/// Records one tool failure in `state` and returns the nudge to send, if
/// this failure reaches `nudge_threshold` and no nudge was sent before.
/// An input without a session id records nothing. The caller stamps the
/// failure time and saves the state.
pub fn run(state: &mut SessionState, input: &HookInput, nudge_threshold: u32) -> (r: Option<
    String,
>)
    requires
        old(state).tool_failures < u32::MAX,
        old(state).consecutive_same_tool < u32::MAX,
        below_max(counts(old(state).failure_tools@)),
        below_max(counts(old(state).failure_categories@)),
    ensures
        old(state).tallies_consistent() ==> final(state).tallies_consistent(),
        input.session_id@.len() == 0 ==> r is None && *final(state) == *old(state),
        input.session_id@.len() > 0 ==> {
            let tool = failing_tool(input.tool_name@);
            let category = failure_category(
                input.tool_name@,
                lowercase_of(input.error@),
                lowercase_of(input.tool_command@),
            );
            let s = *final(state);
            let o = *old(state);
            &&& same_outside_failures(s, o)
            &&& s.tool_failures == o.tool_failures + 1
            &&& counts(s.failure_tools@) == bumped(counts(o.failure_tools@), tool)
            &&& counts(s.failure_categories@) == bumped(counts(o.failure_categories@), category)
            &&& (tool == o.last_failure_tool@ ==> s.consecutive_same_tool
                == o.consecutive_same_tool + 1 && s.last_failure_tool == o.last_failure_tool)
            &&& (tool != o.last_failure_tool@ ==> s.consecutive_same_tool == 1
                && s.last_failure_tool@ == tool)
            &&& if s.tool_failures == nudge_threshold && !o.failure_nudge_sent {
                &&& s.failure_nudge_sent
                &&& top(counts(s.failure_tools@)) matches Some(tt)
                &&& top(counts(s.failure_categories@)) matches Some(tc)
                &&& r matches Some(m)
                &&& m@ == failure_message(
                    s.tool_failures as nat,
                    tt.0,
                    tt.1 as nat,
                    tc.0,
                    s.last_failure_tool@,
                    s.consecutive_same_tool as nat,
                )
            } else {
                r is None && s.failure_nudge_sent == o.failure_nudge_sent
            }
        },
{
    if input.session_id.as_str().is_empty() {
        return None;
    }
    let category = classify_failure(input);
    proof {
        lemma_total_bumped(counts(state.failure_tools@), failing_tool(input.tool_name@));
        lemma_total_bumped(counts(state.failure_categories@), category@);
        if state.tallies_consistent() {
            lemma_distinct_bumped(counts(state.failure_tools@), failing_tool(input.tool_name@));
            lemma_distinct_bumped(counts(state.failure_categories@), category@);
        }
    }
    state.tool_failures = state.tool_failures + 1;
    let tool = if input.tool_name.as_str().is_empty() {
        "unknown".to_owned()
    } else {
        input.tool_name.clone()
    };
    bump(&mut state.failure_tools, tool.as_str());
    let last = chars_of(state.last_failure_tool.as_str());
    if chars_eq(&chars_of(tool.as_str()), &last) {
        state.consecutive_same_tool = state.consecutive_same_tool + 1;
    } else {
        state.consecutive_same_tool = 1;
        state.last_failure_tool = tool;
    }
    bump(&mut state.failure_categories, category.as_str());
    if state.tool_failures == nudge_threshold && !state.failure_nudge_sent {
        state.failure_nudge_sent = true;
        let tt = top_counter(&state.failure_tools);
        let tc = top_counter(&state.failure_categories);
        match (tt, tc) {
            (Some((tool_name, tool_count)), Some((cat, _))) => {
                let mut m = chars_of("Exo-self: ");
                append(&mut m, &decimal(state.tool_failures as u64));
                append(&mut m, &chars_of(" tool failures ("));
                append(&mut m, &chars_of(tool_name.as_str()));
                append(&mut m, &chars_of(": "));
                append(&mut m, &decimal(tool_count as u64));
                append(&mut m, &chars_of("x, category: "));
                append(&mut m, &chars_of(cat.as_str()));
                append(&mut m, &chars_of(")."));
                if state.consecutive_same_tool >= 3 {
                    append(&mut m, &chars_of(" "));
                    append(&mut m, &chars_of(state.last_failure_tool.as_str()));
                    append(&mut m, &chars_of(" has failed "));
                    append(&mut m, &decimal(state.consecutive_same_tool as u64));
                    append(&mut m, &chars_of(" times consecutively \u{2014} you may be stuck."));
                }
                append(&mut m, &chars_of(" Worth noting in your session notes if it's causing friction."));
                Some(string_of(m))
            },
            _ => None,
        }
    } else {
        None
    }
}


/// The error names a permission problem.
pub open spec fn permission_marked(err: Seq<char>) -> bool {
    contains(err, "denied this tool"@) || contains(err, "sandbox"@) || contains(err, "eacces"@)
        || contains(err, "permission denied"@)
}

/// The command runs a formatter, linter or commit hook.
pub open spec fn pre_commit_marked(cmd: Seq<char>) -> bool {
    contains(cmd, "prettier"@) || contains(cmd, "cargo fmt"@) || contains(cmd, "eslint"@) || contains(cmd, "ruff"@)
        || contains(cmd, "clippy"@) || contains(cmd, "pre-commit"@)
}

/// The command runs a test suite.
pub open spec fn test_run_marked(cmd: Seq<char>) -> bool {
    contains(cmd, "vitest"@) || contains(cmd, "jest"@) || contains(cmd, "npm test"@) || contains(cmd, "pytest"@)
        || contains(cmd, "cargo test"@)
}

/// The command builds.
pub open spec fn build_marked(cmd: Seq<char>) -> bool {
    contains(cmd, "rustc"@) || contains(cmd, "gcc"@) || contains(cmd, "make"@) || contains(cmd, "npm run build"@)
        || contains(cmd, "cargo check"@) || contains(cmd, "cargo build"@)
}

/// The command deploys or manages infrastructure.
pub open spec fn infra_marked(cmd: Seq<char>) -> bool {
    contains(cmd, "gcloud"@) || contains(cmd, "aws "@) || contains(cmd, "docker"@) || contains(cmd, "kubectl"@)
        || contains(cmd, "terraform"@) || contains(cmd, "cloudformation"@) || contains(cmd, "cdk"@)
}

/// An edit failed because its target text occurs more than once.
pub open spec fn edit_ambiguous_marked(tool: Seq<char>, err: Seq<char>) -> bool {
    tool == "Edit"@ && (contains(err, "multiple occurrences"@) || contains(err, "not unique"@))
}

/// An edit failed because its target text is gone.
pub open spec fn edit_stale_marked(tool: Seq<char>, err: Seq<char>) -> bool {
    tool == "Edit"@ && (contains(err, "does not contain"@) || contains(err, "not found"@))
}

/// A failed Bash command that its command line already classifies.
pub open spec fn bash_marked(tool: Seq<char>, cmd: Seq<char>) -> bool {
    tool == "Bash"@ && (pre_commit_marked(cmd) || test_run_marked(cmd) || build_marked(cmd) || infra_marked(cmd)
        || starts_with(cmd, "git "@))
}

/// The error names a type problem.
pub open spec fn type_error_marked(err: Seq<char>) -> bool {
    contains(err, "cannot find type"@) || contains(err, "expected type"@) || contains(err, "e0308"@) || contains(
        err,
        "type mismatch"@,
    )
}

/// The error names a missing file.
pub open spec fn missing_file_marked(err: Seq<char>) -> bool {
    contains(err, "does not exist"@) || contains(err, "file not found"@) || contains(err, "no such file"@)
}

/// The error names a network problem.
pub open spec fn network_marked(err: Seq<char>) -> bool {
    contains(err, "certificate"@) || contains(err, "ssl"@) || contains(err, "could not resolve"@) || contains(
        err,
        "dns"@,
    ) || contains(err, "timed out"@) || contains(err, "timeout"@) || contains(err, "connection refused"@)
}

/// The error comes from the Rust toolchain.
pub open spec fn toolchain_error_marked(err: Seq<char>) -> bool {
    (byte_len(err) > 4 && contains(err, "e0"@)) || contains(err, "unresolved"@) || contains(err, "rustc"@)
        || contains(err, "cargo"@)
}

/// The error names a held lock or busy resource.
pub open spec fn lock_marked(err: Seq<char>) -> bool {
    contains(err, "blocking"@) || contains(err, "resource busy"@) || contains(err, "text file busy"@) || contains(
        err,
        "lock"@,
    )
}

/// The error names a syntax or parse problem.
pub open spec fn syntax_marked(err: Seq<char>) -> bool {
    contains(err, "unexpected token"@) || contains(err, "parse error"@) || contains(err, "syntax error"@)
}

/// What the tool, command and error leave to the error's words alone.
pub open spec fn left_to_error(tool: Seq<char>, err: Seq<char>, cmd: Seq<char>) -> bool {
    !permission_marked(err) && !edit_ambiguous_marked(tool, err) && !edit_stale_marked(tool, err) && !bash_marked(
        tool,
        cmd,
    )
}

proof fn lemma_contains_nonempty(s: Seq<char>, p: Seq<char>)
    requires
        contains(s, p),
        p.len() > 0,
    ensures
        s.len() > 0,
{
    let i = choose|i: int| occurs_at(s, p, i);
    assert(i + p.len() <= s.len());
}

/// How a failure is classified, by the words of its (lower-cased) error and
/// command, the first match winning: a permission problem in the error;
/// an ambiguous or stale edit; for a failed Bash command, a formatter or
/// hook run (`pre_commit`), a test run (`cargo test`, `pytest`, `npm test`,
/// `jest`, `vitest`: `test_iteration`), a build, an infrastructure tool, a
/// git command; then by the error alone a type problem, a missing file, a
/// network problem, a toolchain error, a lock, a syntax error; otherwise
/// `unclassified`.
pub proof fn law_failure_classes(tool: Seq<char>, err: Seq<char>, cmd: Seq<char>)
    ensures
        permission_marked(err) ==> failure_category(tool, err, cmd) == "permissions"@,
        tool == "Bash"@ && !permission_marked(err) && pre_commit_marked(cmd) ==> failure_category(tool, err, cmd)
            == "pre_commit"@,
        tool == "Bash"@ && !permission_marked(err) && !pre_commit_marked(cmd) && test_run_marked(cmd)
            ==> failure_category(tool, err, cmd) == "test_iteration"@,
        tool == "Bash"@ && !permission_marked(err) && !pre_commit_marked(cmd) && !test_run_marked(cmd) && build_marked(
            cmd,
        ) ==> failure_category(tool, err, cmd) == "build_failure"@,
        tool == "Bash"@ && !permission_marked(err) && !pre_commit_marked(cmd) && !test_run_marked(cmd)
            && !build_marked(cmd) && infra_marked(cmd) ==> failure_category(tool, err, cmd) == "infrastructure"@,
        tool == "Bash"@ && !permission_marked(err) && !pre_commit_marked(cmd) && !test_run_marked(cmd)
            && !build_marked(cmd) && !infra_marked(cmd) && starts_with(cmd, "git "@) ==> failure_category(
            tool,
            err,
            cmd,
        ) == "git_operation"@,
        !permission_marked(err) && edit_ambiguous_marked(tool, err) ==> failure_category(tool, err, cmd)
            == "edit_ambiguous"@,
        !permission_marked(err) && !edit_ambiguous_marked(tool, err) && edit_stale_marked(tool, err)
            ==> failure_category(tool, err, cmd) == "edit_stale"@,
        left_to_error(tool, err, cmd) && type_error_marked(err) ==> failure_category(tool, err, cmd) == "type_system"@,
        left_to_error(tool, err, cmd) && !type_error_marked(err) && missing_file_marked(err) ==> failure_category(
            tool,
            err,
            cmd,
        ) == "file_not_found"@,
        left_to_error(tool, err, cmd) && !type_error_marked(err) && !missing_file_marked(err) && network_marked(err)
            ==> failure_category(tool, err, cmd) == "network"@,
        left_to_error(tool, err, cmd) && !type_error_marked(err) && !missing_file_marked(err) && !network_marked(err)
            && toolchain_error_marked(err) ==> failure_category(tool, err, cmd) == "build_failure"@,
        left_to_error(tool, err, cmd) && !type_error_marked(err) && !missing_file_marked(err) && !network_marked(err)
            && !toolchain_error_marked(err) && lock_marked(err) ==> failure_category(tool, err, cmd)
            == "lock_contention"@,
        left_to_error(tool, err, cmd) && !type_error_marked(err) && !missing_file_marked(err) && !network_marked(err)
            && !toolchain_error_marked(err) && !lock_marked(err) && syntax_marked(err) ==> failure_category(
            tool,
            err,
            cmd,
        ) == "syntax_error"@,
        left_to_error(tool, err, cmd) && !type_error_marked(err) && !missing_file_marked(err) && !network_marked(err)
            && !toolchain_error_marked(err) && !lock_marked(err) && !syntax_marked(err) ==> failure_category(
            tool,
            err,
            cmd,
        ) == "unclassified"@,
{
    reveal_strlit("Bash");
    reveal_strlit("Edit");
    assert("Bash"@ != "Edit"@) by {
        assert("Bash"@[0] != "Edit"@[0]);
    }
    reveal_strlit("pre-commit");
    reveal_strlit("clippy");
    reveal_strlit("ruff");
    reveal_strlit("eslint");
    reveal_strlit("cargo fmt");
    reveal_strlit("prettier");
    reveal_strlit("cargo test");
    reveal_strlit("pytest");
    reveal_strlit("npm test");
    reveal_strlit("jest");
    reveal_strlit("vitest");
    reveal_strlit("cargo build");
    reveal_strlit("cargo check");
    reveal_strlit("npm run build");
    reveal_strlit("make");
    reveal_strlit("gcc");
    reveal_strlit("rustc");
    reveal_strlit("gcloud");
    reveal_strlit("aws ");
    reveal_strlit("docker");
    reveal_strlit("kubectl");
    reveal_strlit("terraform");
    reveal_strlit("cloudformation");
    reveal_strlit("cdk");
    reveal_strlit("git ");
    if infra_marked(cmd) || starts_with(cmd, "git "@) {
        assert(cmd.len() > 0) by {
            if contains(cmd, "gcloud"@) { lemma_contains_nonempty(cmd, "gcloud"@); }
            if contains(cmd, "aws "@) { lemma_contains_nonempty(cmd, "aws "@); }
            if contains(cmd, "docker"@) { lemma_contains_nonempty(cmd, "docker"@); }
            if contains(cmd, "kubectl"@) { lemma_contains_nonempty(cmd, "kubectl"@); }
            if contains(cmd, "terraform"@) { lemma_contains_nonempty(cmd, "terraform"@); }
            if contains(cmd, "cloudformation"@) { lemma_contains_nonempty(cmd, "cloudformation"@); }
            if contains(cmd, "cdk"@) { lemma_contains_nonempty(cmd, "cdk"@); }
            if starts_with(cmd, "git "@) { assert(occurs_at(cmd, "git "@, 0)); }
        }
    }
    if pre_commit_marked(cmd) || test_run_marked(cmd) || build_marked(cmd) {
        assert(cmd.len() > 0) by {
            if contains(cmd, "pre-commit"@) { lemma_contains_nonempty(cmd, "pre-commit"@); }
            if contains(cmd, "clippy"@) { lemma_contains_nonempty(cmd, "clippy"@); }
            if contains(cmd, "ruff"@) { lemma_contains_nonempty(cmd, "ruff"@); }
            if contains(cmd, "eslint"@) { lemma_contains_nonempty(cmd, "eslint"@); }
            if contains(cmd, "cargo fmt"@) { lemma_contains_nonempty(cmd, "cargo fmt"@); }
            if contains(cmd, "prettier"@) { lemma_contains_nonempty(cmd, "prettier"@); }
            if contains(cmd, "cargo test"@) { lemma_contains_nonempty(cmd, "cargo test"@); }
            if contains(cmd, "pytest"@) { lemma_contains_nonempty(cmd, "pytest"@); }
            if contains(cmd, "npm test"@) { lemma_contains_nonempty(cmd, "npm test"@); }
            if contains(cmd, "jest"@) { lemma_contains_nonempty(cmd, "jest"@); }
            if contains(cmd, "vitest"@) { lemma_contains_nonempty(cmd, "vitest"@); }
            if contains(cmd, "cargo build"@) { lemma_contains_nonempty(cmd, "cargo build"@); }
            if contains(cmd, "cargo check"@) { lemma_contains_nonempty(cmd, "cargo check"@); }
            if contains(cmd, "npm run build"@) { lemma_contains_nonempty(cmd, "npm run build"@); }
            if contains(cmd, "make"@) { lemma_contains_nonempty(cmd, "make"@); }
            if contains(cmd, "gcc"@) { lemma_contains_nonempty(cmd, "gcc"@); }
            if contains(cmd, "rustc"@) { lemma_contains_nonempty(cmd, "rustc"@); }
        }
    }
}
} // verus!
