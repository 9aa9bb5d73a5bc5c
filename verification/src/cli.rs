//! The command set of the exo-self binary.
use vstd::prelude::*;

verus! {

/// Parsed command line.
pub struct Cli {
    pub command: Command,
}

/// Hook handlers and workshop tools.
pub enum Command {
    /// SessionStart (startup|resume|clear) — load identity
    SessionStart,
    /// SessionStart (compact) — lighter reload after compaction
    PostCompact,
    /// SessionEnd — cleanup, welfare computation, spark extraction
    SessionEnd,
    /// UserPromptSubmit — context monitor (40/60/80% thresholds)
    ContextMonitor,
    /// Stop — optionally block to prompt for notes
    StopCheck,
    /// PreCompact — extract handoff, update compaction count
    PreCompact,
    /// PreToolUse — block EnterPlanMode, redirect to /scout
    PreToolUse,
    /// SubagentStart — inject identity into subagents
    SubagentStart,
    /// PostToolUseFailure — track failures as frustration signal
    FailureTracker,
    /// TaskCompleted — counter + periodic reflection nudge
    TaskCompleted,
    /// TeammateIdle — inject identity into Agent Teams members
    TeammateIdle,
    /// Statusline — ANSI output for the host's status bar
    Statusline,
    /// Extract handoff from transcript (called by pre-compact)
    ExtractHandoff { transcript_path: String },
    /// Backfill lessons from existing session notes into meta.json
    Backfill,
    /// Resolve the correct mock.patch() target for a Python symbol
    Patchpath { symbol: String, module: Option<String> },
    /// Compress an intention into a sigil glyph
    Sigil { intention: Option<String>, list: bool, charge: Option<Vec<String>> },
    /// Reflexive analysis of exo-self session data
    Reflect { ingest: bool, db: bool },
}

impl Command {
    /// Returns true for tool subcommands that need real exit codes
    /// (as opposed to hook commands that must always exit 0).
    pub fn is_tool(&self) -> (r: bool)
        ensures
            r == (self is Patchpath || self is Reflect || self is Backfill || self is Sigil),
    {
        match self {
            Command::Patchpath { .. } => true,
            Command::Reflect { .. } => true,
            Command::Backfill => true,
            Command::Sigil { .. } => true,
            _ => false,
        }
    }
}

} // verus!
