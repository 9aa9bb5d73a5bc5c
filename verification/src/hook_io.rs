//! Hook input and output records exchanged with the host as JSON.
use vstd::prelude::*;

verus! {

/// Common fields of the host's hook input (stdin JSON). `tool_command`
/// holds `tool_input.command` when the tool input carries one.
pub struct HookInput {
    pub session_id: String,
    pub cwd: String,
    pub transcript_path: String,
    pub trigger: String,
    pub reason: String,
    pub tool_name: String,
    pub stop_hook_active: bool,
    pub error: String,
    pub effort: String,
    pub agent_type: String,
    pub tool_command: String,
}

/// Hook output with additionalContext injection
pub struct HookOutput {
    pub hook_specific_output: HookSpecificOutput,
}

/// The event-specific part of a hook output.
pub struct HookSpecificOutput {
    pub hook_event_name: String,
    pub additional_context: String,
}

/// Stop hook decision output
pub struct DecisionOutput {
    pub decision: String,
    pub reason: String,
}

/// A hook output with additionalContext (the caller prints it as JSON).
pub fn hook_output(event_name: &str, context: &str) -> (r: HookOutput)
    ensures
        r.hook_specific_output.hook_event_name@ == event_name@,
        r.hook_specific_output.additional_context@ == context@,
{
    HookOutput {
        hook_specific_output: HookSpecificOutput {
            hook_event_name: event_name.to_owned(),
            additional_context: context.to_owned(),
        },
    }
}

/// A stop-hook decision (the caller prints it as JSON).
pub fn decision_output(decision: &str, reason: &str) -> (r: DecisionOutput)
    ensures
        r.decision@ == decision@,
        r.reason@ == reason@,
{
    DecisionOutput { decision: decision.to_owned(), reason: reason.to_owned() }
}

/// A PreToolUse permission decision (`hookSpecificOutput.permissionDecision`
/// with its reason).
pub struct ToolDecision {
    pub permission_decision: String,
    pub permission_decision_reason: String,
}

} // verus!
