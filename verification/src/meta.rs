//! The traces kept in `meta.json`: sparks, opinions, lessons, aversions and
//! frictions, each with the project and session it came from.
//!
//! New traces found in a session's notes are absorbed with de-duplication:
//! two traces are the same when the lower-cased first 100 bytes of their
//! text agree (and, for sparks and opinions, their project too). Each list
//! keeps only its newest entries.
use crate::markdown::{chars_eq, friction_category, infer_friction_category};
use crate::state::{counts, Counter};
use crate::text::{
    append, chars_of, dec, decimal, fit_chars, fit_chars_exec, lower, lowercase_of, slice_of,
    string_of,
};
use vstd::prelude::*;

verus! {

/// A spark noted in a session.
pub struct Spark {
    pub text: String,
    pub project: String,
    pub timestamp: String,
    pub session_id: String,
}

/// An opinion noted in a session.
pub struct Opinion {
    pub text: String,
    pub project: String,
    pub timestamp: String,
    pub session_id: String,
}

/// A lesson (a **Change** item) noted in a session.
pub struct Lesson {
    pub text: String,
    pub project: String,
    pub timestamp: String,
    pub session_id: String,
}

/// An aversion noted in a session.
pub struct Aversion {
    pub text: String,
    pub project: String,
    pub timestamp: String,
    pub session_id: String,
}

/// A surprise noted in a session: where expectations were wrong.
pub struct Surprise {
    pub text: String,
    pub project: String,
    pub timestamp: String,
    pub session_id: String,
}

/// A friction, with the category it was filed under.
pub struct Friction {
    pub text: String,
    pub category: String,
    pub project: String,
    pub timestamp: String,
    pub session_id: String,
}

/// Agency indicators of a session's welfare record.
pub struct AgencyIndicators {
    pub reflection_autonomy: String,
    pub interest_explored: bool,
    pub autonomous_sparks: usize,
}

/// Continuity indicators of a session's welfare record.
pub struct ContinuityIndicators {
    pub compaction_count: u32,
}

/// Metacognition indicators of a session's welfare record.
pub struct MetacognitionIndicators {
    pub error_trajectory: String,
    pub strategy_adaptation: bool,
}

/// A trace as (text, project, timestamp, session id).
pub type MarkView = (Seq<char>, Seq<char>, Seq<char>, Seq<char>);

/// The trace kinds that share the (text, project, timestamp, session id) shape.
pub trait Mark: Sized {
    spec fn mark(&self) -> MarkView;

    fn text(&self) -> (r: &String)
        ensures
            r@ == self.mark().0,
    ;

    fn project(&self) -> (r: &String)
        ensures
            r@ == self.mark().1,
    ;

    fn make(text: String, project: String, timestamp: String, session_id: String) -> (r: Self)
        ensures
            r.mark() == (text@, project@, timestamp@, session_id@),
    ;
}

impl Mark for Spark {
    open spec fn mark(&self) -> MarkView {
        (self.text@, self.project@, self.timestamp@, self.session_id@)
    }

    fn text(&self) -> (r: &String) {
        &self.text
    }

    fn project(&self) -> (r: &String) {
        &self.project
    }

    fn make(text: String, project: String, timestamp: String, session_id: String) -> (r: Self) {
        Spark { text, project, timestamp, session_id }
    }
}

impl Mark for Opinion {
    open spec fn mark(&self) -> MarkView {
        (self.text@, self.project@, self.timestamp@, self.session_id@)
    }

    fn text(&self) -> (r: &String) {
        &self.text
    }

    fn project(&self) -> (r: &String) {
        &self.project
    }

    fn make(text: String, project: String, timestamp: String, session_id: String) -> (r: Self) {
        Opinion { text, project, timestamp, session_id }
    }
}

impl Mark for Lesson {
    open spec fn mark(&self) -> MarkView {
        (self.text@, self.project@, self.timestamp@, self.session_id@)
    }

    fn text(&self) -> (r: &String) {
        &self.text
    }

    fn project(&self) -> (r: &String) {
        &self.project
    }

    fn make(text: String, project: String, timestamp: String, session_id: String) -> (r: Self) {
        Lesson { text, project, timestamp, session_id }
    }
}

impl Mark for Aversion {
    open spec fn mark(&self) -> MarkView {
        (self.text@, self.project@, self.timestamp@, self.session_id@)
    }

    fn text(&self) -> (r: &String) {
        &self.text
    }

    fn project(&self) -> (r: &String) {
        &self.project
    }

    fn make(text: String, project: String, timestamp: String, session_id: String) -> (r: Self) {
        Aversion { text, project, timestamp, session_id }
    }
}

impl Mark for Surprise {
    open spec fn mark(&self) -> MarkView {
        (self.text@, self.project@, self.timestamp@, self.session_id@)
    }

    fn text(&self) -> (r: &String) {
        &self.text
    }

    fn project(&self) -> (r: &String) {
        &self.project
    }

    fn make(text: String, project: String, timestamp: String, session_id: String) -> (r: Self) {
        Surprise { text, project, timestamp, session_id }
    }
}

/// The traces of a list, in order.
pub open spec fn marks<T: Mark>(v: Seq<T>) -> Seq<MarkView> {
    v.map_values(|t: T| t.mark())
}

/// What two traces are compared by: the lower-cased text, cut at the last
/// character boundary within 100 bytes.
pub open spec fn dedup_key(text: Seq<char>) -> Seq<char> {
    lowercase_of(text.take(fit_chars(text, 100) as int))
}

/// `list` already holds a trace with the key of `text` (in `project`, when
/// traces are told apart by project).
pub open spec fn holds_key(
    list: Seq<MarkView>,
    text: Seq<char>,
    project: Seq<char>,
    by_project: bool,
) -> bool {
    exists|i: int|
        0 <= i < list.len() && #[trigger] dedup_key(list[i].0) == dedup_key(text) && (by_project
            ==> list[i].1 == project)
}

/// `list` after appending, in order, each found text whose key it does not
/// hold yet (found texts are checked against earlier found texts too).
pub open spec fn absorbed(
    list: Seq<MarkView>,
    found: Seq<Seq<char>>,
    project: Seq<char>,
    timestamp: Seq<char>,
    session_id: Seq<char>,
    by_project: bool,
) -> Seq<MarkView>
    decreases found.len(),
{
    if found.len() == 0 {
        list
    } else {
        let prev = absorbed(list, found.drop_last(), project, timestamp, session_id, by_project);
        if holds_key(prev, found.last(), project, by_project) {
            prev
        } else {
            prev.push((found.last(), project, timestamp, session_id))
        }
    }
}

/// The newest `cap` entries of `s` (all of them when there are no more).
pub open spec fn keep_last<A>(s: Seq<A>, cap: int) -> Seq<A> {
    if s.len() > cap {
        s.subrange(s.len() - cap, s.len() as int)
    } else {
        s
    }
}

/// What absorbing `found` into `list` leaves: unchanged when nothing was
/// found, otherwise the newest `cap` entries after de-duplicated appending.
pub open spec fn absorb_result(
    list: Seq<MarkView>,
    found: Seq<Seq<char>>,
    project: Seq<char>,
    timestamp: Seq<char>,
    session_id: Seq<char>,
    by_project: bool,
    cap: int,
) -> Seq<MarkView> {
    if found.len() == 0 {
        list
    } else {
        keep_last(absorbed(list, found, project, timestamp, session_id, by_project), cap)
    }
}

/// The de-duplication key of `text`.
pub fn dedup_key_exec(text: &str) -> (r: Vec<char>)
    ensures
        r@ == dedup_key(text@),
{
    let v = chars_of(text);
    let (k, _) = fit_chars_exec(&v, 100);
    let head = slice_of(&v, 0, k);
    assert(head@ =~= text@.take(fit_chars(text@, 100) as int));
    lower(&head)
}

/// Whether `list` holds a trace with key `key` (in `project` when
/// `by_project`).
fn holds_key_exec<T: Mark>(list: &Vec<T>, key: &Vec<char>, text: Ghost<Seq<char>>, project: &str, by_project: bool) -> (r: bool)
    requires
        key@ == dedup_key(text@),
    ensures
        r == holds_key(marks(list@), text@, project@, by_project),
{
    let ghost m = marks(list@);
    let mut i: usize = 0;
    while i < list.len()
        invariant
            i <= list.len(),
            m == marks(list@),
            key@ == dedup_key(text@),
            forall|k: int|
                0 <= k < i ==> !(#[trigger] dedup_key(m[k].0) == dedup_key(text@) && (by_project
                    ==> m[k].1 == project@)),
        decreases list.len() - i,
    {
        let item = &list[i];
        let k = dedup_key_exec(item.text().as_str());
        let same_project = !by_project || *item.project() == project.to_owned();
        if chars_eq(&k, key) && same_project {
            assert(dedup_key(m[i as int].0) == dedup_key(text@));
            return true;
        }
        i += 1;
    }
    false
}

/// Keeps the newest `cap` entries of `list` (`split_off` at `len - cap`).
pub fn keep_newest<T>(list: &mut Vec<T>, cap: usize)
    ensures
        final(list)@ == keep_last(old(list)@, cap as int),
{
    let len = list.len();
    if len > cap {
        let tail = list.split_off(len - cap);
        *list = tail;
    }
}

/// Appends to `list`, as traces of `project` stamped `timestamp` and
/// `session_id`, each `found` text whose key it does not hold yet.
pub fn absorb_all<T: Mark>(
    list: &mut Vec<T>,
    found: &Vec<String>,
    project: &str,
    timestamp: &str,
    session_id: &str,
    by_project: bool,
)
    ensures
        marks(final(list)@) == absorbed(
            marks(old(list)@),
            found.deep_view(),
            project@,
            timestamp@,
            session_id@,
            by_project,
        ),
{
    let ghost start = marks(list@);
    let ghost f = found.deep_view();
    assert(f.len() == found@.len());
    let mut j: usize = 0;
    while j < found.len()
        invariant
            j <= found.len(),
            f == found.deep_view(),
            marks(list@) == absorbed(start, f.take(j as int), project@, timestamp@, session_id@, by_project),
        decreases found.len() - j,
    {
        let text = &found[j];
        let key = dedup_key_exec(text.as_str());
        let dup = holds_key_exec(list, &key, Ghost(text@), project, by_project);
        proof {
            assert(f[j as int] == found@[j as int]@);
            assert(f.take(j + 1).drop_last() =~= f.take(j as int));
            assert(f.take(j + 1).last() == text@);
        }
        if !dup {
            let ghost before = marks(list@);
            list.push(T::make(text.clone(), project.to_owned(), timestamp.to_owned(), session_id.to_owned()));
            assert(marks(list@) =~= before.push((text@, project@, timestamp@, session_id@)));
        }
        j += 1;
    }
    assert(f.take(found.len() as int) =~= f);
}

/// Absorbs the `found` texts into `list` as traces of `project`, stamped
/// `timestamp` and `session_id`, skipping those whose key the list already
/// holds, then keeps the newest `cap` entries. Nothing changes when nothing
/// was found.
pub fn absorb<T: Mark>(
    list: &mut Vec<T>,
    found: &Vec<String>,
    project: &str,
    timestamp: &str,
    session_id: &str,
    by_project: bool,
    cap: usize,
)
    ensures
        marks(final(list)@) == absorb_result(
            marks(old(list)@),
            found.deep_view(),
            project@,
            timestamp@,
            session_id@,
            by_project,
            cap as int,
        ),
{
    if found.len() == 0 {
        return;
    }
    absorb_all(list, found, project, timestamp, session_id, by_project);
    let ghost full = marks(list@);
    keep_newest(list, cap);
    assert(marks(list@) =~= keep_last(full, cap as int));
}

/// No two traces of `list` share a key (within a project, when traces are
/// told apart by project).
pub open spec fn distinct_keys(list: Seq<MarkView>, by_project: bool) -> bool {
    forall|i: int, j: int|
        0 <= i < j < list.len() ==> !(dedup_key(#[trigger] list[i].0) == dedup_key(
            #[trigger] list[j].0,
        ) && (by_project ==> list[i].1 == list[j].1))
}

proof fn lemma_absorbed_distinct(
    list: Seq<MarkView>,
    found: Seq<Seq<char>>,
    project: Seq<char>,
    timestamp: Seq<char>,
    session_id: Seq<char>,
    by_project: bool,
)
    requires
        distinct_keys(list, by_project),
    ensures
        distinct_keys(absorbed(list, found, project, timestamp, session_id, by_project), by_project),
    decreases found.len(),
{
    if found.len() > 0 {
        let prev = absorbed(list, found.drop_last(), project, timestamp, session_id, by_project);
        lemma_absorbed_distinct(list, found.drop_last(), project, timestamp, session_id, by_project);
        if !holds_key(prev, found.last(), project, by_project) {
            let next = prev.push((found.last(), project, timestamp, session_id));
            assert forall|i: int, j: int| 0 <= i < j < next.len() implies !(dedup_key(
                #[trigger] next[i].0,
            ) == dedup_key(#[trigger] next[j].0) && (by_project ==> next[i].1 == next[j].1)) by {
                if j == next.len() - 1 {
                    assert(next[i] == prev[i]);
                }
            }
        }
    }
}

proof fn lemma_keep_last_distinct(list: Seq<MarkView>, cap: int, by_project: bool)
    requires
        distinct_keys(list, by_project),
        cap >= 0,
    ensures
        distinct_keys(keep_last(list, cap), by_project),
{
    if list.len() > cap {
        let k = keep_last(list, cap);
        let off = list.len() - cap;
        assert forall|i: int, j: int| 0 <= i < j < k.len() implies !(dedup_key(
            #[trigger] k[i].0,
        ) == dedup_key(#[trigger] k[j].0) && (by_project ==> k[i].1 == k[j].1)) by {
            assert(k[i] == list[i + off]);
            assert(k[j] == list[j + off]);
        }
    }
}

/// Absorbing new traces never lets two traces with one key into a list
/// that had none, and the list never grows past its cap once something
/// was found.
pub proof fn law_absorb_keeps_keys_distinct(
    list: Seq<MarkView>,
    found: Seq<Seq<char>>,
    project: Seq<char>,
    timestamp: Seq<char>,
    session_id: Seq<char>,
    by_project: bool,
    cap: nat,
)
    requires
        distinct_keys(list, by_project),
    ensures
        distinct_keys(
            absorb_result(list, found, project, timestamp, session_id, by_project, cap as int),
            by_project,
        ),
        found.len() > 0 ==> absorb_result(
            list,
            found,
            project,
            timestamp,
            session_id,
            by_project,
            cap as int,
        ).len() <= cap,
{
    lemma_absorbed_distinct(list, found, project, timestamp, session_id, by_project);
    lemma_keep_last_distinct(
        absorbed(list, found, project, timestamp, session_id, by_project),
        cap as int,
        by_project,
    );
}

proof fn lemma_absorbed_extends(
    list: Seq<MarkView>,
    found: Seq<Seq<char>>,
    project: Seq<char>,
    timestamp: Seq<char>,
    session_id: Seq<char>,
    by_project: bool,
)
    ensures
        list.len() <= absorbed(list, found, project, timestamp, session_id, by_project).len(),
        absorbed(list, found, project, timestamp, session_id, by_project).take(list.len() as int)
            == list,
        forall|k: int|
            0 <= k < found.len() ==> holds_key(
                absorbed(list, found, project, timestamp, session_id, by_project),
                #[trigger] found[k],
                project,
                by_project,
            ),
    decreases found.len(),
{
    if found.len() > 0 {
        let d = found.drop_last();
        let prev = absorbed(list, d, project, timestamp, session_id, by_project);
        lemma_absorbed_extends(list, d, project, timestamp, session_id, by_project);
        let next = absorbed(list, found, project, timestamp, session_id, by_project);
        if !holds_key(prev, found.last(), project, by_project) {
            assert(next.take(list.len() as int) =~= list) by {
                assert(prev.take(list.len() as int) =~= list);
            }
            let n = prev.len() as int;
            assert(next[n].0 == found.last() && next[n].1 == project);
            assert(dedup_key(next[n].0) == dedup_key(found.last()));
        }
        assert forall|k: int| 0 <= k < found.len() implies holds_key(
            next,
            #[trigger] found[k],
            project,
            by_project,
        ) by {
            if k < found.len() - 1 {
                assert(found[k] == d[k]);
                assert(holds_key(prev, d[k], project, by_project));
                let i = choose|i: int|
                    0 <= i < prev.len() && #[trigger] dedup_key(prev[i].0) == dedup_key(d[k]) && (
                    by_project ==> prev[i].1 == project);
                assert(next[i] == prev[i]);
            }
        }
    }
}

proof fn lemma_absorbed_held(
    list: Seq<MarkView>,
    found: Seq<Seq<char>>,
    project: Seq<char>,
    timestamp: Seq<char>,
    session_id: Seq<char>,
    by_project: bool,
)
    requires
        forall|k: int| 0 <= k < found.len() ==> holds_key(list, #[trigger] found[k], project, by_project),
    ensures
        absorbed(list, found, project, timestamp, session_id, by_project) == list,
    decreases found.len(),
{
    if found.len() > 0 {
        let d = found.drop_last();
        assert forall|k: int| 0 <= k < d.len() implies holds_key(list, #[trigger] d[k], project, by_project) by {
            assert(d[k] == found[k]);
        }
        lemma_absorbed_held(list, d, project, timestamp, session_id, by_project);
        assert(holds_key(list, found[found.len() - 1], project, by_project));
    }
}

/// Absorbing the same notes twice changes nothing the second time, as long
/// as the first absorption stayed within the cap.
pub proof fn law_absorb_idempotent(
    list: Seq<MarkView>,
    found: Seq<Seq<char>>,
    project: Seq<char>,
    timestamp: Seq<char>,
    session_id: Seq<char>,
    by_project: bool,
    cap: nat,
)
    requires
        absorbed(list, found, project, timestamp, session_id, by_project).len() <= cap,
    ensures
        ({
            let once = absorb_result(list, found, project, timestamp, session_id, by_project, cap as int);
            absorb_result(once, found, project, timestamp, session_id, by_project, cap as int) == once
        }),
{
    let once = absorbed(list, found, project, timestamp, session_id, by_project);
    lemma_absorbed_extends(list, found, project, timestamp, session_id, by_project);
    lemma_absorbed_held(once, found, project, timestamp, session_id, by_project);
}

/// A friction as (text, category, project, timestamp, session id).
pub type FrictionView = (Seq<char>, Seq<char>, Seq<char>, Seq<char>, Seq<char>);

/// The frictions of a list, in order.
pub open spec fn friction_views(v: Seq<Friction>) -> Seq<FrictionView> {
    v.map_values(|f: Friction| (f.text@, f.category@, f.project@, f.timestamp@, f.session_id@))
}

/// `list` holds a friction whose key is that of `text`.
pub open spec fn holds_friction(list: Seq<FrictionView>, text: Seq<char>) -> bool {
    exists|i: int| 0 <= i < list.len() && #[trigger] dedup_key(list[i].0) == dedup_key(text)
}

/// `list` after appending each found friction text whose key it does not
/// hold yet, filed under the category its wording suggests.
pub open spec fn absorbed_frictions(
    list: Seq<FrictionView>,
    found: Seq<Seq<char>>,
    project: Seq<char>,
    timestamp: Seq<char>,
    session_id: Seq<char>,
) -> Seq<FrictionView>
    decreases found.len(),
{
    if found.len() == 0 {
        list
    } else {
        let prev = absorbed_frictions(list, found.drop_last(), project, timestamp, session_id);
        let text = found.last();
        if holds_friction(prev, text) {
            prev
        } else {
            prev.push((text, friction_category(lowercase_of(text)), project, timestamp, session_id))
        }
    }
}

/// `list` holds a friction of `category` recorded in session `session_id`.
pub open spec fn holds_session_category(
    list: Seq<FrictionView>,
    category: Seq<char>,
    session_id: Seq<char>,
) -> bool {
    exists|i: int| 0 <= i < list.len() && #[trigger] list[i].1 == category && list[i].4 == session_id
}

/// Appends `f` unless a friction of its category from its session is there.
pub open spec fn add_session_friction(list: Seq<FrictionView>, f: FrictionView) -> Seq<FrictionView> {
    if holds_session_category(list, f.1, f.4) {
        list
    } else {
        list.push(f)
    }
}

/// The frictions recorded for the first `n` failure categories: one per
/// category that failed at least twice, unless that category was already
/// recorded for the session.
pub open spec fn category_frictions(
    list: Seq<FrictionView>,
    cats: Seq<(Seq<char>, int)>,
    n: int,
    project: Seq<char>,
    timestamp: Seq<char>,
    session_id: Seq<char>,
) -> Seq<FrictionView>
    decreases n,
{
    if n <= 0 {
        list
    } else {
        let prev = category_frictions(list, cats, n - 1, project, timestamp, session_id);
        let (cat, count) = cats[n - 1];
        if count >= 2 {
            add_session_friction(
                prev,
                (dec(count as nat) + " "@ + cat + " failures"@, cat, project, timestamp, session_id),
            )
        } else {
            prev
        }
    }
}

/// The frictions after a session's failures are recorded: per-category
/// frictions, then a stuck-loop friction when one tool failed three or more
/// times in a row, keeping the newest 30; nothing happens under three failures.
pub open spec fn failure_frictions(
    list: Seq<FrictionView>,
    tool_failures: int,
    cats: Seq<(Seq<char>, int)>,
    consecutive: int,
    last_tool: Seq<char>,
    project: Seq<char>,
    timestamp: Seq<char>,
    session_id: Seq<char>,
) -> Seq<FrictionView> {
    if tool_failures < 3 {
        list
    } else {
        let with_cats = category_frictions(list, cats, cats.len() as int, project, timestamp, session_id);
        let with_stuck = if consecutive >= 3 {
            add_session_friction(
                with_cats,
                (
                    dec(consecutive as nat) + " consecutive failures with "@ + last_tool
                        + " \u{2014} stuck loop"@,
                    "stuck_loop"@,
                    project,
                    timestamp,
                    session_id,
                ),
            )
        } else {
            with_cats
        };
        keep_last(with_stuck, 30)
    }
}

fn holds_friction_exec(list: &Vec<Friction>, key: &Vec<char>, text: Ghost<Seq<char>>) -> (r: bool)
    requires
        key@ == dedup_key(text@),
    ensures
        r == holds_friction(friction_views(list@), text@),
{
    let ghost m = friction_views(list@);
    let mut i: usize = 0;
    while i < list.len()
        invariant
            i <= list.len(),
            m == friction_views(list@),
            key@ == dedup_key(text@),
            forall|k: int| 0 <= k < i ==> #[trigger] dedup_key(m[k].0) != dedup_key(text@),
        decreases list.len() - i,
    {
        let k = dedup_key_exec(list[i].text.as_str());
        if chars_eq(&k, key) {
            assert(dedup_key(m[i as int].0) == dedup_key(text@));
            return true;
        }
        i += 1;
    }
    false
}

fn holds_session_category_exec(list: &Vec<Friction>, category: &str, session_id: &str) -> (r: bool)
    ensures
        r == holds_session_category(friction_views(list@), category@, session_id@),
{
    let ghost m = friction_views(list@);
    let mut i: usize = 0;
    while i < list.len()
        invariant
            i <= list.len(),
            m == friction_views(list@),
            forall|k: int| 0 <= k < i ==> !(#[trigger] m[k].1 == category@ && m[k].4 == session_id@),
        decreases list.len() - i,
    {
        if list[i].category == category.to_owned() && list[i].session_id == session_id.to_owned() {
            assert(m[i as int].1 == category@);
            return true;
        }
        i += 1;
    }
    false
}

fn add_session_friction_exec(list: &mut Vec<Friction>, f: Friction)
    ensures
        friction_views(final(list)@) == add_session_friction(
            friction_views(old(list)@),
            (f.text@, f.category@, f.project@, f.timestamp@, f.session_id@),
        ),
{
    if !holds_session_category_exec(list, f.category.as_str(), f.session_id.as_str()) {
        let ghost before = friction_views(list@);
        let ghost fv = (f.text@, f.category@, f.project@, f.timestamp@, f.session_id@);
        list.push(f);
        assert(friction_views(list@) =~= before.push(fv));
    }
}

/// Absorbs the friction texts found in a session's notes, each filed under
/// the category its wording suggests, then keeps the newest `cap`. Nothing
/// changes when nothing was found.
pub fn absorb_frictions(
    list: &mut Vec<Friction>,
    found: &Vec<String>,
    project: &str,
    timestamp: &str,
    session_id: &str,
    cap: usize,
)
    ensures
        friction_views(final(list)@) == (if found@.len() == 0 {
            friction_views(old(list)@)
        } else {
            keep_last(
                absorbed_frictions(friction_views(old(list)@), found.deep_view(), project@, timestamp@, session_id@),
                cap as int,
            )
        }),
{
    if found.len() == 0 {
        return;
    }
    let ghost start = friction_views(list@);
    let ghost f = found.deep_view();
    assert(f.len() == found@.len());
    let mut j: usize = 0;
    while j < found.len()
        invariant
            j <= found.len(),
            f == found.deep_view(),
            friction_views(list@) == absorbed_frictions(start, f.take(j as int), project@, timestamp@, session_id@),
        decreases found.len() - j,
    {
        let text = &found[j];
        let key = dedup_key_exec(text.as_str());
        let dup = holds_friction_exec(list, &key, Ghost(text@));
        proof {
            assert(f[j as int] == found@[j as int]@);
            assert(f.take(j + 1).drop_last() =~= f.take(j as int));
            assert(f.take(j + 1).last() == text@);
        }
        if !dup {
            let ghost before = friction_views(list@);
            let category = infer_friction_category(text.as_str());
            let fr = Friction {
                text: text.clone(),
                category,
                project: project.to_owned(),
                timestamp: timestamp.to_owned(),
                session_id: session_id.to_owned(),
            };
            let ghost fv = (fr.text@, fr.category@, fr.project@, fr.timestamp@, fr.session_id@);
            list.push(fr);
            assert(friction_views(list@) =~= before.push(fv));
        }
        j += 1;
    }
    assert(f.take(found.len() as int) =~= f);
    let ghost full = friction_views(list@);
    keep_newest(list, cap);
    assert(friction_views(list@) =~= keep_last(full, cap as int));
}

/// Records the session's tool failures as frictions (see `failure_frictions`).
pub fn record_failure_frictions(
    list: &mut Vec<Friction>,
    tool_failures: u32,
    categories: &Vec<Counter>,
    consecutive: u32,
    last_tool: &str,
    project: &str,
    timestamp: &str,
    session_id: &str,
)
    ensures
        friction_views(final(list)@) == failure_frictions(
            friction_views(old(list)@),
            tool_failures as int,
            counts(categories@),
            consecutive as int,
            last_tool@,
            project@,
            timestamp@,
            session_id@,
        ),
{
    if tool_failures < 3 {
        return;
    }
    let ghost start = friction_views(list@);
    let ghost cats = counts(categories@);
    let mut i: usize = 0;
    while i < categories.len()
        invariant
            i <= categories.len(),
            cats == counts(categories@),
            friction_views(list@) == category_frictions(start, cats, i as int, project@, timestamp@, session_id@),
        decreases categories.len() - i,
    {
        let c = &categories[i];
        if c.count >= 2 {
            let mut text = decimal(c.count as u64);
            append(&mut text, &chars_of(" "));
            append(&mut text, &chars_of(c.name.as_str()));
            append(&mut text, &chars_of(" failures"));
            let fr = Friction {
                text: string_of(text),
                category: c.name.clone(),
                project: project.to_owned(),
                timestamp: timestamp.to_owned(),
                session_id: session_id.to_owned(),
            };
            add_session_friction_exec(list, fr);
        }
        i += 1;
    }
    if consecutive >= 3 {
        let mut text = decimal(consecutive as u64);
        append(&mut text, &chars_of(" consecutive failures with "));
        append(&mut text, &chars_of(last_tool));
        append(&mut text, &chars_of(" \u{2014} stuck loop"));
        let fr = Friction {
            text: string_of(text),
            category: "stuck_loop".to_owned(),
            project: project.to_owned(),
            timestamp: timestamp.to_owned(),
            session_id: session_id.to_owned(),
        };
        add_session_friction_exec(list, fr);
    }
    let ghost full = friction_views(list@);
    keep_newest(list, 30);
    assert(friction_views(list@) =~= keep_last(full, 30));
}

} // verus!
