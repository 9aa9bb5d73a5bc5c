//! SessionEnd: fold the traces written in the session's notes into the
//! long-lived trace lists, and judge how the session's reflection came about.
use crate::markdown::{
    extract_aversions, extract_changes, extract_entries_spec, extract_frictions, extract_opinions,
    extract_sparks, real_changes,
};
use crate::meta::{
    absorb, absorb_frictions, absorb_result, absorbed, absorbed_frictions, add_session_friction,
    category_frictions, failure_frictions, friction_views, FrictionView, MarkView,
    keep_last, keep_newest, marks, record_failure_frictions, Aversion, Friction, Lesson, Opinion, Spark,
    Surprise,
};
use crate::state::{counts, SessionState};
use vstd::prelude::*;

verus! {

/// The trace lists of `meta.json`.
pub struct MetaTraces {
    pub sparks: Vec<Spark>,
    pub opinions: Vec<Opinion>,
    pub lessons: Vec<Lesson>,
    pub frictions: Vec<Friction>,
    pub aversions: Vec<Aversion>,
    pub surprises: Vec<Surprise>,
}

/// How many sparks and opinions the session's notes held.
pub struct TraceCounts {
    pub sparks: usize,
    pub opinions: usize,
}

/// The session id traces are filed under: the hook's, else the state's.
pub open spec fn filing_session(session_id: Seq<char>, state_session_id: Seq<char>) -> Seq<char> {
    if session_id.len() == 0 {
        state_session_id
    } else {
        session_id
    }
}

/// Where sparks and opinions are looked for: the prose after the
/// frontmatter, or the whole notes when there is no such prose.
pub open spec fn marker_source(content: Seq<char>, prose: Seq<char>) -> Seq<char> {
    if prose.len() > 0 {
        prose
    } else {
        content
    }
}

/// The sparks found in the session's notes (none without notes).
pub open spec fn found_sparks(content: Seq<char>, prose: Seq<char>) -> Seq<Seq<char>> {
    if content.len() == 0 {
        Seq::empty()
    } else {
        extract_entries_spec(marker_source(content, prose), "**Spark**"@, "**Spark:**"@, "Spark:"@)
    }
}

/// The opinions found in the session's notes (none without notes).
pub open spec fn found_opinions(content: Seq<char>, prose: Seq<char>) -> Seq<Seq<char>> {
    if content.len() == 0 {
        Seq::empty()
    } else {
        extract_entries_spec(
            marker_source(content, prose),
            "**Opinion**"@,
            "**Opinion:**"@,
            "Opinion:"@,
        )
    }
}

/// The prose the other markers are looked for in (empty without notes).
pub open spec fn prose_of(content: Seq<char>, prose: Seq<char>) -> Seq<char> {
    if content.len() == 0 {
        Seq::empty()
    } else {
        prose
    }
}

/// The trace lists after a session's notes and failures are recorded.
pub open spec fn traces_after(
    meta: MetaTraces,
    content: Seq<char>,
    prose: Seq<char>,
    state: SessionState,
    session_id: Seq<char>,
    timestamp: Seq<char>,
) -> (Seq<(Seq<char>, Seq<char>, Seq<char>, Seq<char>)>, Seq<(Seq<char>, Seq<char>, Seq<char>, Seq<char>)>, Seq<(Seq<char>, Seq<char>, Seq<char>, Seq<char>, Seq<char>)>, Seq<(Seq<char>, Seq<char>, Seq<char>, Seq<char>)>, Seq<(Seq<char>, Seq<char>, Seq<char>, Seq<char>)>) {
    let sid = filing_session(session_id, state.session_id@);
    let slug = state.project_slug@;
    let p = prose_of(content, prose);
    let frictions_found = if p.len() > 0 {
        extract_entries_spec(p, "**Friction**"@, "**Friction:**"@, "Friction:"@)
    } else {
        Seq::empty()
    };
    let changes_found = if p.len() > 0 {
        real_changes(extract_entries_spec(p, "**Change**"@, "**Change:**"@, "Change:"@))
    } else {
        Seq::empty()
    };
    let aversions_found = if p.len() > 0 {
        extract_entries_spec(p, "**Aversion**"@, "**Aversion:**"@, "Aversion:"@)
    } else {
        Seq::empty()
    };
    let noted_frictions = if frictions_found.len() == 0 {
        friction_views(meta.frictions@)
    } else {
        keep_last(
            absorbed_frictions(friction_views(meta.frictions@), frictions_found, slug, timestamp, sid),
            30,
        )
    };
    (
        absorb_result(marks(meta.sparks@), found_sparks(content, prose), slug, timestamp, sid, true, 20),
        absorb_result(marks(meta.opinions@), found_opinions(content, prose), slug, timestamp, sid, true, 25),
        failure_frictions(
            noted_frictions,
            state.tool_failures as int,
            counts(state.failure_categories@),
            state.consecutive_same_tool as int,
            state.last_failure_tool@,
            slug,
            timestamp,
            sid,
        ),
        absorb_result(marks(meta.lessons@), changes_found, slug, timestamp, sid, false, 20),
        absorb_result(marks(meta.aversions@), aversions_found, slug, timestamp, sid, false, 20),
    )
}

/// Records the traces of a finished session: sparks and opinions (told
/// apart per project, newest 20 and 25 kept), frictions from the prose and
/// from the tool failures (newest 30), lessons and aversions (newest 20).
/// `content` is the whole notes file (empty when there is none) and `prose`
/// its part after the frontmatter; `timestamp` stamps every new trace.
pub fn record_traces(
    meta: &mut MetaTraces,
    content: &str,
    prose: &str,
    state: &SessionState,
    session_id: &str,
    timestamp: &str,
) -> (r: TraceCounts)
    ensures
        traces_after(*old(meta), content@, prose@, *state, session_id@, timestamp@) == (
            marks(final(meta).sparks@),
            marks(final(meta).opinions@),
            friction_views(final(meta).frictions@),
            marks(final(meta).lessons@),
            marks(final(meta).aversions@),
        ),
        final(meta).surprises == old(meta).surprises,
        r.sparks == found_sparks(content@, prose@).len(),
        r.opinions == found_opinions(content@, prose@).len(),
{
    let sid = if session_id.is_empty() {
        state.session_id.clone()
    } else {
        session_id.to_owned()
    };
    let slug = state.project_slug.as_str();
    let has_notes = !content.is_empty();
    let source = if !prose.is_empty() {
        prose
    } else {
        content
    };
    let sparks_found: Vec<String> = if has_notes {
        extract_sparks(source)
    } else {
        Vec::new()
    };
    let opinions_found: Vec<String> = if has_notes {
        extract_opinions(source)
    } else {
        Vec::new()
    };
    proof {
        assert(sparks_found.deep_view() =~= found_sparks(content@, prose@));
        assert(opinions_found.deep_view() =~= found_opinions(content@, prose@));
    }
    absorb(&mut meta.sparks, &sparks_found, slug, timestamp, sid.as_str(), true, 20);
    absorb(&mut meta.opinions, &opinions_found, slug, timestamp, sid.as_str(), true, 25);
    let p = if has_notes {
        prose
    } else {
        ""
    };
    proof {
        reveal_strlit("");
    }
    let use_prose = has_notes && !prose.is_empty();
    let frictions_found: Vec<String> = if use_prose {
        extract_frictions(p)
    } else {
        Vec::new()
    };
    absorb_frictions(&mut meta.frictions, &frictions_found, slug, timestamp, sid.as_str(), 30);
    record_failure_frictions(
        &mut meta.frictions,
        state.tool_failures,
        &state.failure_categories,
        state.consecutive_same_tool,
        state.last_failure_tool.as_str(),
        slug,
        timestamp,
        sid.as_str(),
    );
    let changes_found: Vec<String> = if use_prose {
        extract_changes(p)
    } else {
        Vec::new()
    };
    absorb(&mut meta.lessons, &changes_found, slug, timestamp, sid.as_str(), false, 20);
    let aversions_found: Vec<String> = if use_prose {
        extract_aversions(p)
    } else {
        Vec::new()
    };
    absorb(&mut meta.aversions, &aversions_found, slug, timestamp, sid.as_str(), false, 20);
    proof {
        assert(frictions_found.deep_view() =~= (if prose_of(content@, prose@).len() > 0 {
            extract_entries_spec(prose_of(content@, prose@), "**Friction**"@, "**Friction:**"@, "Friction:"@)
        } else {
            Seq::empty()
        }));
    }
    TraceCounts { sparks: sparks_found.len(), opinions: opinions_found.len() }
}

/// How the session's reflection came about: `"none"` when no notes were
/// written during it, `"prompted"` when they were written only after the
/// check-in fired, `"autonomous"` otherwise.
pub open spec fn autonomy(wrote_notes: bool, checkin_fired: bool, wrote_before_checkin: bool) -> Seq<char> {
    if !wrote_notes {
        "none"@
    } else if checkin_fired && !wrote_before_checkin {
        "prompted"@
    } else {
        "autonomous"@
    }
}

/// Judges the session's reflection autonomy from whether notes (or the
/// journal) were written during it, whether the check-in fired, and whether
/// the latest write came before it.
pub fn reflection_autonomy(wrote_notes: bool, checkin_fired: bool, wrote_before_checkin: bool) -> (r: String)
    ensures
        r@ == autonomy(wrote_notes, checkin_fired, wrote_before_checkin),
{
    if !wrote_notes {
        "none".to_owned()
    } else if checkin_fired && !wrote_before_checkin {
        "prompted".to_owned()
    } else {
        "autonomous".to_owned()
    }
}

/// Whether the tool failing most changed since the previous session with
/// welfare indicators (`previous` is empty when there was none).
pub fn strategy_adapted(previous: &str, current: &str) -> (r: bool)
    ensures
        r == (previous@.len() > 0 && current@.len() > 0 && previous@ != current@),
{
    !previous.is_empty() && !current.is_empty() && previous.to_owned() != current.to_owned()
}


/// Records a finished session in the history: its entry goes last, and the
/// history keeps its newest ten entries.
pub fn record_session<T>(history: &mut Vec<T>, entry: T)
    ensures
        final(history)@ == keep_last(old(history)@.push(entry), 10),
{
    history.push(entry);
    keep_newest(history, 10);
}

/// After a session is recorded the history holds at most ten entries, the
/// newest of them that session's, and they are the newest ones in order.
pub proof fn law_history_keeps_newest<T>(history: Seq<T>, entry: T)
    ensures
        keep_last(history.push(entry), 10).len() <= 10,
        keep_last(history.push(entry), 10).last() == entry,
        keep_last(history.push(entry), 10) == history.push(entry).subrange(
            (history.len() + 1 - keep_last(history.push(entry), 10).len()) as int,
            (history.len() + 1) as int,
        ),
{
    let all = history.push(entry);
    if all.len() > 10 {
        assert(keep_last(all, 10) =~= all.subrange(all.len() - 10, all.len() as int));
    } else {
        assert(all.subrange(0, all.len() as int) =~= all);
    }
}

/// A trace list after a session: unchanged when nothing was found, else the
/// newest `cap` entries of the list with the new traces appended, so never
/// longer than `cap` or than it was.
pub open spec fn within_cap<A>(after: Seq<A>, before_len: nat, cap: int) -> bool {
    after.len() <= cap || after.len() == before_len
}

/// Recording a session's traces keeps every list within its cap (sparks
/// 20, opinions 25, frictions 30, lessons 20, aversions 20), unless it was
/// already longer and nothing was added to it.
pub proof fn law_trace_caps(
    meta: MetaTraces,
    content: Seq<char>,
    prose: Seq<char>,
    state: SessionState,
    session_id: Seq<char>,
    timestamp: Seq<char>,
)
    ensures
        ({
            let t = traces_after(meta, content, prose, state, session_id, timestamp);
            &&& within_cap(t.0, meta.sparks@.len(), 20)
            &&& within_cap(t.1, meta.opinions@.len(), 25)
            &&& within_cap(t.2, meta.frictions@.len(), 30)
            &&& within_cap(t.3, meta.lessons@.len(), 20)
            &&& within_cap(t.4, meta.aversions@.len(), 20)
        }),
{
}

/// `a` is the last `a.len()` entries of `b`.
pub open spec fn is_suffix<A>(a: Seq<A>, b: Seq<A>) -> bool {
    a.len() <= b.len() && a == b.subrange(b.len() - a.len(), b.len() as int)
}

/// `b` is `a` with entries appended.
pub open spec fn extends<A>(b: Seq<A>, a: Seq<A>) -> bool {
    a.len() <= b.len() && b.take(a.len() as int) == a
}

/// `after` holds the newest entries of `before` with some entries appended.
pub open spec fn keeps_newest<A>(after: Seq<A>, before: Seq<A>) -> bool {
    exists|all: Seq<A>| extends(all, before) && is_suffix(after, all)
}

proof fn lemma_keep_last_suffix<A>(s: Seq<A>, cap: int)
    requires
        cap >= 0,
    ensures
        is_suffix(keep_last(s, cap), s),
{
    if s.len() <= cap {
        assert(s.subrange(0, s.len() as int) =~= s);
    }
}

proof fn lemma_absorbed_extends(
    list: Seq<MarkView>,
    found: Seq<Seq<char>>,
    project: Seq<char>,
    timestamp: Seq<char>,
    session_id: Seq<char>,
    by_project: bool,
)
    ensures
        extends(absorbed(list, found, project, timestamp, session_id, by_project), list),
    decreases found.len(),
{
    if found.len() == 0 {
        assert(list.take(list.len() as int) =~= list);
    } else {
        lemma_absorbed_extends(list, found.drop_last(), project, timestamp, session_id, by_project);
        let prev = absorbed(list, found.drop_last(), project, timestamp, session_id, by_project);
        assert(prev.push((found.last(), project, timestamp, session_id)).take(list.len() as int) =~= prev.take(
            list.len() as int,
        ));
    }
}

proof fn lemma_absorbed_frictions_extends(
    list: Seq<FrictionView>,
    found: Seq<Seq<char>>,
    project: Seq<char>,
    timestamp: Seq<char>,
    session_id: Seq<char>,
)
    ensures
        extends(absorbed_frictions(list, found, project, timestamp, session_id), list),
    decreases found.len(),
{
    if found.len() == 0 {
        assert(list.take(list.len() as int) =~= list);
    } else {
        lemma_absorbed_frictions_extends(list, found.drop_last(), project, timestamp, session_id);
        let prev = absorbed_frictions(list, found.drop_last(), project, timestamp, session_id);
        let text = found.last();
        let f = (text, crate::markdown::friction_category(crate::text::lowercase_of(text)), project, timestamp, session_id);
        assert(prev.push(f).take(list.len() as int) =~= prev.take(list.len() as int));
    }
}

proof fn lemma_add_session_friction_extends(list: Seq<FrictionView>, f: FrictionView)
    ensures
        extends(add_session_friction(list, f), list),
{
    assert(list.take(list.len() as int) =~= list);
    assert(list.push(f).take(list.len() as int) =~= list);
}

proof fn lemma_category_frictions_extends(
    list: Seq<FrictionView>,
    cats: Seq<(Seq<char>, int)>,
    n: int,
    project: Seq<char>,
    timestamp: Seq<char>,
    session_id: Seq<char>,
)
    ensures
        extends(category_frictions(list, cats, n, project, timestamp, session_id), list),
    decreases n,
{
    if n <= 0 {
        assert(list.take(list.len() as int) =~= list);
    } else {
        lemma_category_frictions_extends(list, cats, n - 1, project, timestamp, session_id);
        let prev = category_frictions(list, cats, n - 1, project, timestamp, session_id);
        let (cat, count) = cats[n - 1];
        let f = (crate::text::dec(count as nat) + " "@ + cat + " failures"@, cat, project, timestamp, session_id);
        lemma_add_session_friction_extends(prev, f);
        lemma_extends_trans(add_session_friction(prev, f), prev, list);
    }
}

proof fn lemma_extends_trans<A>(c: Seq<A>, b: Seq<A>, a: Seq<A>)
    requires
        extends(c, b),
        extends(b, a),
    ensures
        extends(c, a),
{
    assert(c.take(a.len() as int) =~= c.take(b.len() as int).take(a.len() as int));
}

proof fn lemma_suffix_trans<A>(a: Seq<A>, b: Seq<A>, c: Seq<A>)
    requires
        is_suffix(a, b),
        is_suffix(b, c),
    ensures
        is_suffix(a, c),
{
    assert(c.subrange(c.len() - a.len(), c.len() as int) =~= c.subrange(c.len() - b.len(), c.len() as int).subrange(
        b.len() - a.len(),
        b.len() as int,
    ));
}

/// A list that extends the newest entries of `y` fits, as the newest
/// entries, onto the older part of `y`.
proof fn lemma_graft<A>(y: Seq<A>, noted: Seq<A>, x: Seq<A>)
    requires
        is_suffix(noted, y),
        extends(x, noted),
    ensures
        extends(y.take(y.len() - noted.len()) + x, y),
        is_suffix(x, y.take(y.len() - noted.len()) + x),
{
    let k = y.len() - noted.len();
    let all = y.take(k) + x;
    assert forall|i: int| 0 <= i < y.len() implies all[i] == y[i] by {
        if i >= k {
            assert(x[i - k] == x.take(noted.len() as int)[i - k]);
            assert(noted[i - k] == y.subrange(k, y.len() as int)[i - k]);
        }
    }
    assert(all.take(y.len() as int) =~= y);
    assert(all.subrange(all.len() - x.len(), all.len() as int) =~= x);
}

proof fn lemma_absorb_result_keeps_newest(
    list: Seq<MarkView>,
    found: Seq<Seq<char>>,
    project: Seq<char>,
    timestamp: Seq<char>,
    session_id: Seq<char>,
    by_project: bool,
    cap: int,
)
    requires
        cap >= 0,
    ensures
        keeps_newest(absorb_result(list, found, project, timestamp, session_id, by_project, cap), list),
{
    let after = absorb_result(list, found, project, timestamp, session_id, by_project, cap);
    if found.len() == 0 {
        assert(list.take(list.len() as int) =~= list);
        assert(list.subrange(0, list.len() as int) =~= list);
        assert(extends(list, list) && is_suffix(after, list));
    } else {
        let all = absorbed(list, found, project, timestamp, session_id, by_project);
        lemma_absorbed_extends(list, found, project, timestamp, session_id, by_project);
        lemma_keep_last_suffix(all, cap);
        assert(extends(all, list) && is_suffix(after, all));
    }
}

/// Recording a session's traces keeps, in every list, the newest entries of
/// the old list with the session's new traces appended: each list after is
/// the tail of the old list extended by what was added.
pub proof fn law_traces_keep_newest(
    meta: MetaTraces,
    content: Seq<char>,
    prose: Seq<char>,
    state: SessionState,
    session_id: Seq<char>,
    timestamp: Seq<char>,
)
    ensures
        ({
            let t = traces_after(meta, content, prose, state, session_id, timestamp);
            &&& keeps_newest(t.0, marks(meta.sparks@))
            &&& keeps_newest(t.1, marks(meta.opinions@))
            &&& keeps_newest(t.2, friction_views(meta.frictions@))
            &&& keeps_newest(t.3, marks(meta.lessons@))
            &&& keeps_newest(t.4, marks(meta.aversions@))
        }),
{
    let sid = filing_session(session_id, state.session_id@);
    let slug = state.project_slug@;
    let p = prose_of(content, prose);
    let changes_found = if p.len() > 0 {
        real_changes(extract_entries_spec(p, "**Change**"@, "**Change:**"@, "Change:"@))
    } else {
        Seq::empty()
    };
    let aversions_found = if p.len() > 0 {
        extract_entries_spec(p, "**Aversion**"@, "**Aversion:**"@, "Aversion:"@)
    } else {
        Seq::empty()
    };
    lemma_absorb_result_keeps_newest(marks(meta.sparks@), found_sparks(content, prose), slug, timestamp, sid, true, 20);
    lemma_absorb_result_keeps_newest(marks(meta.opinions@), found_opinions(content, prose), slug, timestamp, sid, true, 25);
    lemma_absorb_result_keeps_newest(marks(meta.lessons@), changes_found, slug, timestamp, sid, false, 20);
    lemma_absorb_result_keeps_newest(marks(meta.aversions@), aversions_found, slug, timestamp, sid, false, 20);
    // Frictions: the noted ones are the newest of the old list with the
    // found ones appended; the failure frictions are then appended to them,
    // and the newest 30 kept.
    let old = friction_views(meta.frictions@);
    let frictions_found = if p.len() > 0 {
        extract_entries_spec(p, "**Friction**"@, "**Friction:**"@, "Friction:"@)
    } else {
        Seq::empty()
    };
    let y = absorbed_frictions(old, frictions_found, slug, timestamp, sid);
    lemma_absorbed_frictions_extends(old, frictions_found, slug, timestamp, sid);
    let noted = if frictions_found.len() == 0 {
        old
    } else {
        keep_last(y, 30)
    };
    let base = if frictions_found.len() == 0 {
        old
    } else {
        y
    };
    if frictions_found.len() == 0 {
        assert(old.take(old.len() as int) =~= old);
        assert(old.subrange(0, old.len() as int) =~= old);
    } else {
        lemma_keep_last_suffix(y, 30);
    }
    assert(extends(base, old) && is_suffix(noted, base));
    let cats = counts(state.failure_categories@);
    let after = t2_of(meta, content, prose, state, session_id, timestamp);
    if state.tool_failures < 3 {
        assert(extends(base, old) && is_suffix(after, base));
    } else {
        let with_cats = category_frictions(noted, cats, cats.len() as int, slug, timestamp, sid);
        lemma_category_frictions_extends(noted, cats, cats.len() as int, slug, timestamp, sid);
        let stuck = (
            crate::text::dec(state.consecutive_same_tool as nat) + " consecutive failures with "@ + state.last_failure_tool@
                + " \u{2014} stuck loop"@,
            "stuck_loop"@,
            slug,
            timestamp,
            sid,
        );
        let with_stuck = if state.consecutive_same_tool >= 3 {
            add_session_friction(with_cats, stuck)
        } else {
            with_cats
        };
        if state.consecutive_same_tool >= 3 {
            lemma_add_session_friction_extends(with_cats, stuck);
            lemma_extends_trans(with_stuck, with_cats, noted);
        }
        lemma_graft(base, noted, with_stuck);
        let all = base.take(base.len() - noted.len()) + with_stuck;
        lemma_extends_trans(all, base, old);
        lemma_keep_last_suffix(with_stuck, 30);
        lemma_suffix_trans(after, with_stuck, all);
        assert(extends(all, old) && is_suffix(after, all));
    }
}

/// The frictions `traces_after` leaves.
spec fn t2_of(
    meta: MetaTraces,
    content: Seq<char>,
    prose: Seq<char>,
    state: SessionState,
    session_id: Seq<char>,
    timestamp: Seq<char>,
) -> Seq<FrictionView> {
    traces_after(meta, content, prose, state, session_id, timestamp).2
}
} // verus!
