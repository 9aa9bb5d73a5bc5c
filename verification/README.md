# exo-self

Persistent identity hooks for a coding agent: at session start the agent is
handed its journal, interests, sparks, opinions, lessons and project notes; at
session end its notes are mined for new traces and a welfare summary; in
between, hooks watch context usage, tool failures, compactions and subagents.

## Layout

- `src/` — the library, verified with Verus. Every decision the hooks take is
  a function here from plain values (strings, counters, flags, the notes' text)
  to plain values, with a contract over spec functions: note and journal
  parsing, trace extraction and deduplication, project slugs, the session
  state's counters, the context monitor's thresholds, handoff extraction from
  a transcript, the session-start briefing, the status line, `patchpath`,
  sigils, preflight planning and the integer side of `reflect`. Laws that span
  several functions are public proof functions named `law_*`.
- `app/` — the `exo-self` binary: argument parsing, stdin/stdout JSON, files,
  processes, the redb store of `reflect`, and the floating-point statistics
  (welfare summary, usage ratios, correlations), which stay outside the
  verified library.
- `tests/` — scenario tests of the library.
