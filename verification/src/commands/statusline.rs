//! The status line: model, repository and branch, git state and line
//! changes, then a twenty-brick context bar with usage, duration and cost.
//! The caller reads the host's JSON, runs git and writes the shared
//! context file; the numbers and the text are made here.
use crate::reflect::{all_digits, digits_value, lemma_digits_value_prefix};
use crate::text::{append, chars_of, dec, decimal, slice_of, starts_with, string_of};
use vstd::prelude::*;

verus! {

/// Usage from the host's percentage: `(used tokens, percent)`.
pub fn usage_from_percentage(total_tokens: u64, usage_pct: u64) -> (r: (u64, u64))
    requires
        total_tokens * usage_pct <= u64::MAX,
    ensures
        r.0 == total_tokens * usage_pct / 100,
        r.1 == usage_pct,
{
    (total_tokens * usage_pct / 100, usage_pct)
}

/// Usage counted from the current request's tokens: input, cache creation
/// and cache reads; the percent is of the whole window (0 for an empty one).
pub fn usage_from_counts(total_tokens: u64, input_tokens: u64, cache_creation: u64, cache_read: u64) -> (r: (u64, u64))
    requires
        input_tokens + cache_creation + cache_read <= u64::MAX,
        (input_tokens + cache_creation + cache_read) * 100 <= u64::MAX,
    ensures
        r.0 == input_tokens + cache_creation + cache_read,
        r.1 == if total_tokens > 0 { (r.0 * 100) as int / (total_tokens as int) } else { 0 },
{
    let used = input_tokens + cache_creation + cache_read;
    let pct = if total_tokens > 0 {
        used * 100 / total_tokens
    } else {
        0
    };
    (used, pct)
}

/// How many of the twenty bricks are used.
pub open spec fn used_bricks(used_tokens: int, total_tokens: int) -> int {
    if total_tokens > 0 {
        let b = used_tokens * 20 / total_tokens;
        if b > 20 { 20 } else { b }
    } else {
        0
    }
}

/// The bricks filled for a usage.
pub fn bricks(used_tokens: u64, total_tokens: u64) -> (r: u64)
    requires
        used_tokens * 20 <= u64::MAX,
    ensures
        r == used_bricks(used_tokens as int, total_tokens as int),
        r <= 20,
{
    if total_tokens > 0 {
        let b = used_tokens * 20 / total_tokens;
        if b > 20 {
            20
        } else {
            b
        }
    } else {
        0
    }
}

/// `n` copies of `s`.
pub open spec fn repeat(s: Seq<char>, n: nat) -> Seq<char>
    decreases n,
{
    if n == 0 {
        seq![]
    } else {
        repeat(s, (n - 1) as nat) + s
    }
}

fn repeat_exec(s: &str, n: u64) -> (r: Vec<char>)
    ensures
        r@ == repeat(s@, n as nat),
{
    let c = chars_of(s);
    let mut m: Vec<char> = Vec::new();
    let mut i: u64 = 0;
    while i < n
        invariant
            i <= n,
            c@ == s@,
            m@ == repeat(s@, i as nat),
        decreases n - i,
    {
        append(&mut m, &c);
        i += 1;
    }
    m
}

/// The second line: the bar of used and free bricks, the percent, the
/// duration in hours and minutes, and the cost when there is one.
pub open spec fn context_line_text(used: nat, usage_pct: nat, duration_ms: nat, cost: Option<Seq<char>>) -> Seq<char> {
    "["@ + repeat("\x1b[0;36m\u{25a0}\x1b[0m"@, used) + repeat("\x1b[2;37m\u{25a1}\x1b[0m"@, (20 - used) as nat)
        + "] \x1b[1m"@ + dec(usage_pct) + "%\x1b[0m | "@ + dec(duration_ms / 3_600_000) + "h"@
        + dec((duration_ms % 3_600_000) / 60_000) + "m"@ + match cost {
        Some(c) => " | \x1b[0;33m$"@ + c + "\x1b[0m"@,
        None => seq![],
    }
}

/// Writes the second line; `cost` is the cost in dollars with two decimals,
/// given only when it is above zero.
pub fn context_line(used_bricks: u64, usage_pct: u64, duration_ms: u64, cost: Option<&str>) -> (r: String)
    requires
        used_bricks <= 20,
    ensures
        r@ == context_line_text(used_bricks as nat, usage_pct as nat, duration_ms as nat, match cost {
            Some(c) => Some(c@),
            None => None,
        }),
{
    let mut m = chars_of("[");
    append(&mut m, &repeat_exec("\x1b[0;36m\u{25a0}\x1b[0m", used_bricks));
    append(&mut m, &repeat_exec("\x1b[2;37m\u{25a1}\x1b[0m", 20 - used_bricks));
    append(&mut m, &chars_of("] \x1b[1m"));
    append(&mut m, &decimal(usage_pct));
    append(&mut m, &chars_of("%\x1b[0m | "));
    append(&mut m, &decimal(duration_ms / 3_600_000));
    append(&mut m, &chars_of("h"));
    append(&mut m, &decimal((duration_ms % 3_600_000) / 60_000));
    append(&mut m, &chars_of("m"));
    let ghost head = m@;
    match cost {
        Some(c) => {
            append(&mut m, &chars_of(" | \x1b[0;33m$"));
            append(&mut m, &chars_of(c));
            append(&mut m, &chars_of("\x1b[0m"));
        },
        None => {
            assert(m@ =~= head + Seq::<char>::empty());
        },
    }
    string_of(m)
}

/// `str::parse::<u64>`: an optional `+`, then one or more digits whose value
/// fits.
pub open spec fn parse_u64(s: Seq<char>) -> Option<nat> {
    let digits = if s.len() > 0 && s[0] == '+' {
        s.skip(1)
    } else {
        s
    };
    if digits.len() > 0 && all_digits(digits) && digits_value(digits) <= u64::MAX {
        Some(digits_value(digits))
    } else {
        None
    }
}

/// Reads a decimal `u64` as `str::parse` does.
pub fn parse_u64_exec(s: &Vec<char>) -> (r: Option<u64>)
    ensures
        match parse_u64(s@) {
            Some(v) => r == Some(v as u64),
            None => r is None,
        },
{
    let start: usize = if s.len() > 0 && s[0] == '+' {
        1
    } else {
        0
    };
    let ghost digits = if s@.len() > 0 && s@[0] == '+' {
        s@.skip(1)
    } else {
        s@
    };
    assert(digits =~= s@.skip(start as int));
    if start == s.len() {
        return None;
    }
    let mut v: u64 = 0;
    let mut i: usize = start;
    while i < s.len()
        invariant
            start <= i <= s.len(),
            digits == s@.skip(start as int),
            digits == (if s@.len() > 0 && s@[0] == '+' {
                s@.skip(1)
            } else {
                s@
            }),
            digits.len() > 0,
            all_digits(digits.take(i - start)),
            v == digits_value(digits.take(i - start)),
        decreases s.len() - i,
    {
        let c = s[i];
        if !('0' <= c && c <= '9') {
            assert(!all_digits(digits)) by {
                assert(digits[i - start] == c);
            }
            return None;
        }
        let d = (c as u32 - 48) as u64;
        proof {
            let t = digits.take(i - start + 1);
            assert(t.drop_last() =~= digits.take(i - start));
            assert(t.last() == c);
        }
        match v.checked_mul(10) {
            Some(v10) => match v10.checked_add(d) {
                Some(nv) => {
                    v = nv;
                },
                None => {
                    proof {
                        if all_digits(digits) {
                            lemma_digits_value_prefix(digits, i - start + 1);
                        }
                    }
                    return None;
                },
            },
            None => {
                proof {
                    if all_digits(digits) {
                        lemma_digits_value_prefix(digits, i - start + 1);
                    }
                }
                return None;
            },
        }
        i += 1;
    }
    assert(digits.take(s.len() - start) =~= digits);
    Some(v)
}

/// A count that parses and is above zero.
pub open spec fn positive_count(s: Seq<char>) -> Option<nat> {
    match parse_u64(s) {
        Some(n) => if n > 0 { Some(n) } else { None },
        None => None,
    }
}

/// The git state: `*` for uncommitted changes, then `↑n` and `↓n` for the
/// commits ahead of and behind the upstream, when there is one.
pub open spec fn git_status_text(dirty: bool, has_upstream: bool, ahead: Seq<char>, behind: Seq<char>) -> Seq<char> {
    (if dirty { "*"@ } else { seq![] }) + if has_upstream {
        (match positive_count(ahead) {
            Some(n) => "\u{2191}"@ + dec(n),
            None => seq![],
        }) + match positive_count(behind) {
            Some(n) => "\u{2193}"@ + dec(n),
            None => seq![],
        }
    } else {
        seq![]
    }
}

/// The git state from `git status --porcelain` being non-empty and the
/// trimmed outputs of the two `rev-list --count` calls.
pub fn git_status(dirty: bool, has_upstream: bool, ahead: &str, behind: &str) -> (r: String)
    ensures
        r@ == git_status_text(dirty, has_upstream, ahead@, behind@),
{
    let mut m: Vec<char> = Vec::new();
    if dirty {
        append(&mut m, &chars_of("*"));
    }
    if has_upstream {
        match parse_u64_exec(&chars_of(ahead)) {
            Some(n) => if n > 0 {
                append(&mut m, &chars_of("\u{2191}"));
                append(&mut m, &decimal(n));
            },
            None => {},
        }
        match parse_u64_exec(&chars_of(behind)) {
            Some(n) => if n > 0 {
                append(&mut m, &chars_of("\u{2193}"));
                append(&mut m, &decimal(n));
            },
            None => {},
        }
    }
    assert(m@ =~= git_status_text(dirty, has_upstream, ahead@, behind@));
    string_of(m)
}

/// `s` with every occurrence of `p` removed, left to right.
pub open spec fn remove_all(s: Seq<char>, p: Seq<char>) -> Seq<char>
    decreases s.len(),
{
    if s.len() == 0 || p.len() == 0 {
        s
    } else if starts_with(s, p) {
        remove_all(s.skip(p.len() as int), p)
    } else {
        seq![s[0]] + remove_all(s.skip(1), p)
    }
}

/// The model's display name without the host's prefix (every occurrence
/// removed, as `str::replace` with nothing does).
pub fn model_label(display_name: &str, prefix: &str) -> (r: String)
    requires
        prefix@.len() > 0,
    ensures
        r@ == remove_all(display_name@, prefix@),
{
    let s = chars_of(display_name);
    let p = chars_of(prefix);
    let mut out: Vec<char> = Vec::new();
    let mut i: usize = 0;
    assert(s@.skip(0) =~= s@);
    assert(out@ + remove_all(s@, p@) =~= remove_all(s@, p@));
    while i < s.len()
        invariant
            i <= s.len(),
            p@ == prefix@,
            p@.len() > 0,
            out@ + remove_all(s@.skip(i as int), p@) == remove_all(s@, p@),
        decreases s.len() - i,
    {
        let ghost rest = s@.skip(i as int);
        let tail = slice_of(&s, i, s.len());
        assert(tail@ =~= rest);
        if crate::text::starts_with_exec(&tail, &p) {
            assert(rest.skip(p@.len() as int) =~= s@.skip(i + p@.len()));
            i += p.len();
        } else {
            assert(rest.skip(1) =~= s@.skip(i + 1));
            let ghost before = out@;
            out.push(s[i]);
            assert(out@ + remove_all(s@.skip(i + 1), p@) =~= before + (seq![s@[i as int]] + remove_all(rest.skip(1), p@)));
            i += 1;
        }
    }
    assert(s@.skip(i as int) =~= Seq::<char>::empty());
    assert(out@ + Seq::<char>::empty() =~= out@);
    string_of(out)
}

/// The repository and branch part of the first line.
pub open spec fn repo_part(repo: Seq<char>, branch: Seq<char>) -> Seq<char> {
    if repo.len() > 0 {
        "\x1b[1;32m"@ + repo + "\x1b[0m"@ + if branch.len() > 0 {
            ":\x1b[1;34m"@ + branch + "\x1b[0m"@
        } else {
            seq![]
        }
    } else {
        seq![]
    }
}

/// The lines-changed part of the first line.
pub open spec fn changes_part(added: nat, removed: nat) -> Seq<char> {
    if added > 0 || removed > 0 {
        " | \x1b[0;32m+"@ + dec(added) + "\x1b[0m/\x1b[0;31m-"@ + dec(removed) + "\x1b[0m"@
    } else {
        seq![]
    }
}

/// The first line: the exo-self mark when a session state exists, the
/// model, the repository and branch, the git state, and the lines added and
/// removed when there are any.
pub open spec fn status_line_text(
    exo_active: bool,
    model: Seq<char>,
    repo: Seq<char>,
    branch: Seq<char>,
    status: Seq<char>,
    added: nat,
    removed: nat,
) -> Seq<char> {
    (if exo_active { "\x1b[1;35m\u{25c8}\x1b[0m "@ } else { seq![] }) + "\x1b[1;36m["@ + model + "]\x1b[0m "@
        + repo_part(repo, branch) + (if status.len() > 0 {
        " \x1b[1;31m"@ + status + "\x1b[0m"@
    } else {
        seq![]
    }) + changes_part(added, removed)
}

fn repo_part_exec(repo: &str, branch: &str) -> (r: Vec<char>)
    ensures
        r@ == repo_part(repo@, branch@),
{
    let mut m: Vec<char> = Vec::new();
    if !repo.is_empty() {
        append(&mut m, &chars_of("\x1b[1;32m"));
        append(&mut m, &chars_of(repo));
        append(&mut m, &chars_of("\x1b[0m"));
        let ghost head = m@;
        if !branch.is_empty() {
            append(&mut m, &chars_of(":\x1b[1;34m"));
            append(&mut m, &chars_of(branch));
            append(&mut m, &chars_of("\x1b[0m"));
        } else {
            assert(m@ =~= head + Seq::<char>::empty());
        }
    } else {
        assert(m@ =~= Seq::<char>::empty());
    }
    m
}

fn changes_part_exec(added: u64, removed: u64) -> (r: Vec<char>)
    ensures
        r@ == changes_part(added as nat, removed as nat),
{
    let mut m: Vec<char> = Vec::new();
    if added > 0 || removed > 0 {
        append(&mut m, &chars_of(" | \x1b[0;32m+"));
        append(&mut m, &decimal(added));
        append(&mut m, &chars_of("\x1b[0m/\x1b[0;31m-"));
        append(&mut m, &decimal(removed));
        append(&mut m, &chars_of("\x1b[0m"));
    } else {
        assert(m@ =~= Seq::<char>::empty());
    }
    m
}

/// Writes the first line.
pub fn status_line(
    exo_active: bool,
    model: &str,
    repo: &str,
    branch: &str,
    status: &str,
    added: u64,
    removed: u64,
) -> (r: String)
    ensures
        r@ == status_line_text(exo_active, model@, repo@, branch@, status@, added as nat, removed as nat),
{
    let mut m: Vec<char> = Vec::new();
    if exo_active {
        append(&mut m, &chars_of("\x1b[1;35m\u{25c8}\x1b[0m "));
    }
    append(&mut m, &chars_of("\x1b[1;36m["));
    append(&mut m, &chars_of(model));
    append(&mut m, &chars_of("]\x1b[0m "));
    append(&mut m, &repo_part_exec(repo, branch));
    let ghost b = m@;
    if !status.is_empty() {
        append(&mut m, &chars_of(" \x1b[1;31m"));
        append(&mut m, &chars_of(status));
        append(&mut m, &chars_of("\x1b[0m"));
    } else {
        assert(m@ =~= b + Seq::<char>::empty());
    }
    append(&mut m, &changes_part_exec(added, removed));
    assert(m@ =~= status_line_text(exo_active, model@, repo@, branch@, status@, added as nat, removed as nat));
    string_of(m)
}

/// The branch shown: `detached` when git names none.
pub fn branch_label(branch: &str) -> (r: String)
    ensures
        r@ == if branch@.len() == 0 { "detached"@ } else { branch@ },
{
    if branch.is_empty() {
        "detached".to_owned()
    } else {
        branch.to_owned()
    }
}

} // verus!
