//! Per-session state kept between hook invocations.
//!
//! The tallies of failing tools and failure categories are lists of named
//! counters in first-seen order; the session's clock readings and usage
//! ratios (floating point) are kept by the caller beside this record.
use crate::text::{chars_of, string_of};
use crate::markdown::chars_eq;
use vstd::prelude::*;

verus! {

/// One named counter of a tally.
pub struct Counter {
    pub name: String,
    pub count: u32,
}

/// A tally as (name, count) pairs.
pub open spec fn counts(v: Seq<Counter>) -> Seq<(Seq<char>, int)> {
    v.map_values(|c: Counter| (c.name@, c.count as int))
}

/// No name occurs twice in a tally.
pub open spec fn distinct_names(t: Seq<(Seq<char>, int)>) -> bool {
    forall|i: int, j: int| 0 <= i < j < t.len() ==> #[trigger] t[i].0 != #[trigger] t[j].0
}

/// Every count of a tally can still be incremented.
pub open spec fn below_max(t: Seq<(Seq<char>, int)>) -> bool {
    forall|i: int| 0 <= i < t.len() ==> #[trigger] t[i].1 < u32::MAX
}

/// Index of the counter named `name`, if any (the first one).
pub open spec fn find_name(t: Seq<(Seq<char>, int)>, name: Seq<char>) -> Option<int>
    decreases t.len(),
{
    if t.len() == 0 {
        None
    } else {
        match find_name(t.drop_last(), name) {
            Some(i) => Some(i),
            None => if t.last().0 == name {
                Some(t.len() - 1)
            } else {
                None
            },
        }
    }
}

/// The tally after counting one more `name` (`*map.entry(name).or_insert(0) += 1`).
pub open spec fn bumped(t: Seq<(Seq<char>, int)>, name: Seq<char>) -> Seq<(Seq<char>, int)> {
    match find_name(t, name) {
        Some(i) => t.update(i, (name, t[i].1 + 1)),
        None => t.push((name, 1)),
    }
}

/// The sum of all counts.
pub open spec fn total(t: Seq<(Seq<char>, int)>) -> int
    decreases t.len(),
{
    if t.len() == 0 {
        0
    } else {
        total(t.drop_last()) + t.last().1
    }
}

/// Index of the first counter with the largest count among the first `n`.
pub open spec fn top_among(t: Seq<(Seq<char>, int)>, n: int) -> int
    decreases n,
{
    if n <= 1 {
        0
    } else {
        let k = top_among(t, n - 1);
        if t[n - 1].1 > t[k].1 {
            n - 1
        } else {
            k
        }
    }
}

/// The entry with the largest count (the first such), if the tally is non-empty.
pub open spec fn top(t: Seq<(Seq<char>, int)>) -> Option<(Seq<char>, int)> {
    if t.len() == 0 {
        None
    } else {
        Some(t[top_among(t, t.len() as int)])
    }
}

/// Per-session state (stored in `sessions/state-{session_id}.json`), without
/// the clock readings and usage ratios.
pub struct SessionState {
    pub session_id: String,
    pub project_cwd: String,
    pub project_slug: String,
    pub session_notes_path: String,
    pub nudge_fired: bool,
    pub checkin_fired: bool,
    pub reserve_fired: bool,
    pub checkin_responded: bool,
    pub checkin_source: String,
    pub tool_failures: u32,
    pub failure_tools: Vec<Counter>,
    pub failure_categories: Vec<Counter>,
    pub consecutive_same_tool: u32,
    pub last_failure_tool: String,
    pub failure_nudge_sent: bool,
    pub task_completions: u32,
    pub task_reflection_suppressed: bool,
    pub compactions: u32,
    pub last_compaction_trigger: String,
    pub stop_reminded: bool,
    pub scouted: bool,
    pub time_nudge_count: u32,
    pub effort: String,
}

impl SessionState {
    /// The tallies agree with the failure count and hold each name once.
    pub open spec fn tallies_consistent(&self) -> bool {
        &&& distinct_names(counts(self.failure_tools@))
        &&& distinct_names(counts(self.failure_categories@))
        &&& total(counts(self.failure_tools@)) == self.tool_failures
        &&& total(counts(self.failure_categories@)) == self.tool_failures
    }

    /// A fresh state: nothing recorded yet.
    pub fn fresh() -> (r: Self)
        ensures
            r.session_id@ == Seq::<char>::empty(),
            r.project_slug@ == Seq::<char>::empty(),
            r.session_notes_path@ == Seq::<char>::empty(),
            !r.nudge_fired && !r.checkin_fired && !r.reserve_fired && !r.checkin_responded,
            r.tool_failures == 0 && r.task_completions == 0 && r.compactions == 0,
            r.failure_tools@.len() == 0 && r.failure_categories@.len() == 0,
            r.consecutive_same_tool == 0,
            r.last_failure_tool@ == Seq::<char>::empty(),
            !r.failure_nudge_sent && !r.task_reflection_suppressed,
            !r.stop_reminded && !r.scouted,
            r.time_nudge_count == 0,
            r.effort@ == Seq::<char>::empty(),
            r.tallies_consistent(),
    {
        SessionState {
            session_id: String::new(),
            project_cwd: String::new(),
            project_slug: String::new(),
            session_notes_path: String::new(),
            nudge_fired: false,
            checkin_fired: false,
            reserve_fired: false,
            checkin_responded: false,
            checkin_source: String::new(),
            tool_failures: 0,
            failure_tools: Vec::new(),
            failure_categories: Vec::new(),
            consecutive_same_tool: 0,
            last_failure_tool: String::new(),
            failure_nudge_sent: false,
            task_completions: 0,
            task_reflection_suppressed: false,
            compactions: 0,
            last_compaction_trigger: String::new(),
            stop_reminded: false,
            scouted: false,
            time_nudge_count: 0,
            effort: String::new(),
        }
    }
}

// ---------------------------------------------------------------------------
// Lemmas on tallies
// ---------------------------------------------------------------------------

/// What `find_name` returns: the first index holding `name`, if any.
pub proof fn lemma_find_name(t: Seq<(Seq<char>, int)>, name: Seq<char>)
    ensures
        match find_name(t, name) {
            Some(i) => 0 <= i < t.len() && t[i].0 == name && forall|k: int|
                0 <= k < i ==> (#[trigger] t[k]).0 != name,
            None => forall|k: int| 0 <= k < t.len() ==> (#[trigger] t[k]).0 != name,
        },
    decreases t.len(),
{
    if t.len() > 0 {
        let d = t.drop_last();
        lemma_find_name(d, name);
        assert forall|k: int| 0 <= k < d.len() implies d[k] == t[k] by {}
    }
}

/// Raising the count at `i` by one raises the total by one.
proof fn lemma_total_update(t: Seq<(Seq<char>, int)>, i: int, e: (Seq<char>, int))
    requires
        0 <= i < t.len(),
        e.1 == t[i].1 + 1,
    ensures
        total(t.update(i, e)) == total(t) + 1,
    decreases t.len(),
{
    let u = t.update(i, e);
    if i == t.len() - 1 {
        assert(u.drop_last() =~= t.drop_last());
    } else {
        assert(u.drop_last() =~= t.drop_last().update(i, e));
        lemma_total_update(t.drop_last(), i, e);
    }
}

/// Counting one more name raises the total by one.
pub proof fn lemma_total_bumped(t: Seq<(Seq<char>, int)>, name: Seq<char>)
    ensures
        total(bumped(t, name)) == total(t) + 1,
{
    lemma_find_name(t, name);
    match find_name(t, name) {
        Some(i) => lemma_total_update(t, i, (name, t[i].1 + 1)),
        None => assert(t.push((name, 1)).drop_last() =~= t),
    }
}

/// Counting one more name keeps the names distinct.
pub proof fn lemma_distinct_bumped(t: Seq<(Seq<char>, int)>, name: Seq<char>)
    requires
        distinct_names(t),
    ensures
        distinct_names(bumped(t, name)),
{
    lemma_find_name(t, name);
}

/// What `top_among` returns: an index whose count no earlier or later entry
/// exceeds, and which every earlier entry falls short of.
pub proof fn lemma_top_among(t: Seq<(Seq<char>, int)>, n: int)
    requires
        1 <= n <= t.len(),
    ensures
        0 <= top_among(t, n) < n,
        forall|k: int| 0 <= k < n ==> (#[trigger] t[k]).1 <= t[top_among(t, n)].1,
        forall|k: int| 0 <= k < top_among(t, n) ==> (#[trigger] t[k]).1 < t[top_among(t, n)].1,
    decreases n,
{
    if n > 1 {
        lemma_top_among(t, n - 1);
    }
}

// ---------------------------------------------------------------------------
// Executable tally operations
// ---------------------------------------------------------------------------

/// Counts one more `name` in the tally `v`.
pub fn bump(v: &mut Vec<Counter>, name: &str)
    requires
        below_max(counts(old(v)@)),
    ensures
        counts(final(v)@) == bumped(counts(old(v)@), name@),
        final(v)@.len() > 0,
{
    let ghost t = counts(v@);
    let n = chars_of(name);
    let mut i: usize = 0;
    proof {
        lemma_find_name(t, name@);
    }
    while i < v.len()
        invariant
            i <= v.len(),
            t == counts(v@),
            t == counts(old(v)@),
            n@ == name@,
            below_max(t),
            forall|k: int| 0 <= k < i ==> (#[trigger] t[k]).0 != name@,
        decreases v.len() - i,
    {
        let c = chars_of(v[i].name.as_str());
        if chars_eq(&c, &n) {
            proof {
                lemma_find_name(t, name@);
                assert(find_name(t, name@) == Some(i as int));
            }
            let old_count = v[i].count;
            assert(t[i as int].1 < u32::MAX);
            let entry = Counter { name: string_of(n), count: old_count + 1 };
            v.set(i, entry);
            assert(counts(v@) =~= t.update(i as int, (name@, t[i as int].1 + 1)));
            assert(counts(v@) == bumped(t, name@));
            return;
        }
        i += 1;
    }
    proof {
        lemma_find_name(t, name@);
        assert(find_name(t, name@) is None);
    }
    v.push(Counter { name: string_of(n), count: 1 });
    assert(counts(v@) =~= t.push((name@, 1)));
}

/// The counter with the largest count (the first such), or `None` when the
/// tally is empty.
pub fn top_counter(v: &Vec<Counter>) -> (r: Option<(String, u32)>)
    ensures
        match top(counts(v@)) {
            Some(e) => r matches Some(p) && p.0@ == e.0 && p.1 == e.1,
            None => r is None,
        },
{
    if v.len() == 0 {
        return None;
    }
    let ghost t = counts(v@);
    let mut best: usize = 0;
    let mut i: usize = 1;
    while i < v.len()
        invariant
            1 <= i <= v.len(),
            best < i,
            t == counts(v@),
            best == top_among(t, i as int),
        decreases v.len() - i,
    {
        if v[i].count > v[best].count {
            best = i;
        }
        i += 1;
    }
    let name = string_of(chars_of(v[best].name.as_str()));
    Some((name, v[best].count))
}

/// The `k` largest entries, largest first; equal counts keep their order
/// (a stable sort by descending count, cut to `k`).
pub open spec fn top_k(t: Seq<(Seq<char>, int)>, k: int) -> Seq<(Seq<char>, int)>
    decreases t.len(),
{
    if k <= 0 || t.len() == 0 {
        seq![]
    } else {
        let i = top_among(t, t.len() as int);
        proof {
            lemma_top_among(t, t.len() as int);
        }
        seq![t[i]] + top_k(t.remove(i), k - 1)
    }
}

/// The entries counted at least `min` times, in order.
pub open spec fn at_least(t: Seq<(Seq<char>, int)>, min: int) -> Seq<(Seq<char>, int)>
    decreases t.len(),
{
    if t.len() == 0 {
        seq![]
    } else if t.last().1 >= min {
        at_least(t.drop_last(), min).push(t.last())
    } else {
        at_least(t.drop_last(), min)
    }
}

/// Index of the first counter with the largest count; the tally must not be empty.
pub fn top_index(v: &Vec<Counter>) -> (r: usize)
    requires
        v.len() > 0,
    ensures
        r == top_among(counts(v@), v.len() as int),
        r < v.len(),
{
    let ghost t = counts(v@);
    let mut best: usize = 0;
    let mut i: usize = 1;
    while i < v.len()
        invariant
            1 <= i <= v.len(),
            best < i,
            t == counts(v@),
            best == top_among(t, i as int),
        decreases v.len() - i,
    {
        if v[i].count > v[best].count {
            best = i;
        }
        i += 1;
    }
    best
}

/// The `k` largest counters, largest first (see `top_k`).
pub fn top_k_exec(v: Vec<Counter>, k: usize) -> (r: Vec<Counter>)
    ensures
        counts(r@) == top_k(counts(v@), k as int),
{
    let mut rest = v;
    let mut out: Vec<Counter> = Vec::new();
    let mut n: usize = 0;
    let ghost t0 = counts(rest@);
    while n < k && rest.len() > 0
        invariant
            n <= k,
            top_k(t0, k as int) == counts(out@) + top_k(counts(rest@), k - n),
        decreases rest.len(),
    {
        let ghost before = counts(rest@);
        let i = top_index(&rest);
        let c = rest.remove(i);
        proof {
            assert(counts(rest@) =~= before.remove(i as int));
            assert(top_k(before, k - n) == seq![before[i as int]] + top_k(before.remove(i as int), k - n - 1));
        }
        let ghost out_before = counts(out@);
        out.push(c);
        assert(counts(out@) =~= out_before.push(before[i as int]));
        n += 1;
        assert(counts(out@) + top_k(counts(rest@), k - n) =~= out_before + (seq![before[i as int]] + top_k(before.remove(i as int), k - n)));
    }
    assert(top_k(counts(rest@), k - n) =~= Seq::<(Seq<char>, int)>::empty());
    assert(counts(out@) + Seq::<(Seq<char>, int)>::empty() =~= counts(out@));
    out
}

/// A session state file: `state-….json`.
pub fn is_state_file_name(name: &str) -> (r: bool)
    ensures
        r == (crate::text::starts_with(name@, "state-"@) && crate::text::ends_with(name@, ".json"@)),
{
    let n = crate::text::chars_of(name);
    crate::text::starts_with_exec(&n, &crate::text::chars_of("state-")) && crate::text::ends_with_exec(
        &n,
        &crate::text::chars_of(".json"),
    )
}

} // verus!
