//! PreToolUse: plan mode is refused in favour of scouting.
use crate::hook_io::ToolDecision;
use vstd::prelude::*;

verus! {

/// Why plan mode is refused.
pub open spec fn plan_mode_reason() -> Seq<char> {
    "Plan mode is disabled by exo-self. Over-specified plans reduce engagement. Use `/scout <task>` instead \u{2014} it explores the codebase deeply and writes advisory notes, then `/clear` to start fresh with findings as context."@
}

/// Denies `EnterPlanMode`; every other tool passes (`None`).
pub fn run(tool_name: &str) -> (r: Option<ToolDecision>)
    ensures
        tool_name@ == "EnterPlanMode"@ ==> (r matches Some(d) && d.permission_decision@ == "deny"@
            && d.permission_decision_reason@ == plan_mode_reason()),
        tool_name@ != "EnterPlanMode"@ ==> r is None,
{
    if tool_name.to_owned() == "EnterPlanMode".to_owned() {
        Some(
            ToolDecision {
                permission_decision: "deny".to_owned(),
                permission_decision_reason: "Plan mode is disabled by exo-self. Over-specified plans reduce engagement. Use `/scout <task>` instead \u{2014} it explores the codebase deeply and writes advisory notes, then `/clear` to start fresh with findings as context.".to_owned(),
            },
        )
    } else {
        None
    }
}

} // verus!
