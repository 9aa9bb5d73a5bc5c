//! The whole-number settings of `config.json` and the migration of a legacy
//! default. The caller reads the file (its thresholds are fractions).
use vstd::prelude::*;

verus! {

/// The context window estimate, in characters, when none is configured.
pub const DEFAULT_MAX_CHARS: u64 = 4_000_000;

/// The `estimated_max_chars` written by older setups: 800K characters, about
/// a 200K-token window. Kept, it would saturate the usage ratio on modern
/// windows, so it counts as unset.
pub const LEGACY_MAX_CHARS: u64 = 800_000;

/// The configured window estimate after migration: the legacy sentinel
/// becomes the current default; every other value stays.
pub fn migrate_max_chars(estimated_max_chars: u64) -> (r: u64)
    ensures
        r == if estimated_max_chars == LEGACY_MAX_CHARS { DEFAULT_MAX_CHARS } else { estimated_max_chars },
{
    if estimated_max_chars == LEGACY_MAX_CHARS {
        DEFAULT_MAX_CHARS
    } else {
        estimated_max_chars
    }
}

} // verus!
