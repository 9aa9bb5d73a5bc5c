//! The decisions each hook takes, on values its caller has read.
pub mod failure_tracker;
pub mod session_end;
pub mod context_monitor;
pub mod pre_tool_use;
pub mod task_completed;
pub mod teammate_idle;
pub mod subagent_start;
pub mod extract_handoff;
pub mod session_start;
pub mod plain_start;
pub mod stop_check;
pub mod pre_compact;
pub mod compact_handoff;
pub mod post_compact;
pub mod patchpath;
pub mod statusline;
pub mod preflight;
pub mod backfill;
