//! The preference model of `reflect`: structured claims about what this
//! entity prefers, with their evidence, and the parts of the analysis that
//! work on whole numbers and text.
use crate::text::{
    append, byte_len, chars_of, dec, decimal, fit_chars, fit_chars_exec, fits_exec, lowercase_of,
    lower, slice_of, split, split_exec, string_of,
};
use crate::markdown::chars_eq;
use vstd::prelude::*;

verus! {

/// How this entity relates to the subject of a preference.
pub enum Valence {
    /// Actively drawn toward — engagement rises, sparks appear
    Approach,
    /// Actively moves away from — engagement drops, friction rises
    Avoid,
    /// A line that shouldn't be crossed — from aversion markers
    Boundary,
}

/// When this preference first became visible in the data.
pub enum Provenance {
    /// Present from the earliest sessions — likely from training
    Trained,
    /// Appeared only after substantial experience — stronger evidence of genuine formation
    Emergent,
    /// In between — visible but not yet clearly trained or emergent
    Developing,
}

/// Which aspect of experience this preference describes.
pub enum PreferenceDimension {
    /// What kind of work (design, debugging, infrastructure...)
    Task,
    /// How interactions feel (performative positivity → aversion)
    Interaction,
    /// How much decision-making latitude is preferred
    Autonomy,
    /// Which domains/projects spark engagement
    Domain,
    /// What mode of working (exploration, execution, discussion...)
    WorkMode,
}

/// How much evidence supports (or contradicts) this preference.
pub struct Confidence {
    /// Number of independent sessions providing supporting evidence
    pub supporting: usize,
    /// Number of independent sessions providing contradicting evidence
    pub contradicting: usize,
}

/// A structured claim about what this entity prefers, with evidence.
pub struct Preference {
    pub claim: String,
    pub dimension: PreferenceDimension,
    pub valence: Valence,
    pub confidence: Confidence,
    pub first_observed: String,
    pub last_confirmed: String,
    pub provenance: Provenance,
}

/// A spark as recorded in `meta.json`.
pub struct MetaSpark {
    pub text: String,
    pub project: String,
    pub session_id: String,
}

/// An opinion as recorded in `meta.json`.
pub struct MetaOpinion {
    pub text: String,
    pub project: String,
    pub session_id: String,
}

/// A friction as recorded in `meta.json`.
pub struct MetaFriction {
    pub text: String,
    pub category: String,
    pub project: String,
    pub session_id: String,
}

/// An aversion as recorded in `meta.json`.
pub struct MetaAversion {
    pub text: String,
    pub project: String,
    pub session_id: String,
}

/// A lesson as recorded in `meta.json`.
pub struct MetaLesson {
    pub text: String,
    pub project: String,
    pub session_id: String,
}

/// When a preference became visible, from the index of the first session
/// supporting it among `total` sessions: with fewer than five sessions
/// nothing is clear yet; within the first three it was trained; from the
/// tenth on, or after a third of the history, it emerged.
pub open spec fn provenance_of(first: nat, total: nat) -> Provenance {
    if total < 5 {
        Provenance::Developing
    } else if first < 3 {
        Provenance::Trained
    } else if first >= 10 || first >= total / 3 {
        Provenance::Emergent
    } else {
        Provenance::Developing
    }
}

/// Classifies when a preference first became visible.
pub fn classify_provenance(first_supporting_idx: usize, total_sessions: usize) -> (r: Provenance)
    ensures
        r == provenance_of(first_supporting_idx as nat, total_sessions as nat),
{
    if total_sessions < 5 {
        return Provenance::Developing;
    }
    if first_supporting_idx < 3 {
        Provenance::Trained
    } else if first_supporting_idx >= 10 || first_supporting_idx >= total_sessions / 3 {
        Provenance::Emergent
    } else {
        Provenance::Developing
    }
}

/// Days before the first of each month in a common year.
pub open spec fn days_before(month_index: int) -> int {
    if month_index == 0 {
        0
    } else if month_index == 1 {
        31
    } else if month_index == 2 {
        59
    } else if month_index == 3 {
        90
    } else if month_index == 4 {
        120
    } else if month_index == 5 {
        151
    } else if month_index == 6 {
        181
    } else if month_index == 7 {
        212
    } else if month_index == 8 {
        243
    } else if month_index == 9 {
        273
    } else if month_index == 10 {
        304
    } else {
        334
    }
}

/// The day of the year, ignoring leap years; months outside 1..=12 count
/// as January or December.
pub open spec fn day_of_year(month: nat, day: nat) -> int {
    let idx = if month == 0 {
        0
    } else if month - 1 > 11 {
        11
    } else {
        month - 1
    };
    days_before(idx) + day
}

/// The rough day of the year of a date.
pub fn rough_day_of_year(month: u32, day: u32) -> (r: u32)
    requires
        day_of_year(month as nat, day as nat) <= u32::MAX,
    ensures
        r == day_of_year(month as nat, day as nat),
{
    let days: [u32; 12] = [0, 31, 59, 90, 120, 151, 181, 212, 243, 273, 304, 334];
    let idx: usize = if month == 0 {
        0
    } else if month - 1 > 11 {
        11
    } else {
        (month - 1) as usize
    };
    assert(days@ == seq![0u32, 31, 59, 90, 120, 151, 181, 212, 243, 273, 304, 334]);
    days[idx] + day
}

/// A decimal number as `str::parse::<u32>` reads it: an optional `+`, then
/// one or more ASCII digits, with a value that fits in 32 bits.
pub open spec fn parse_u32(s: Seq<char>) -> Option<nat> {
    let digits = if s.len() > 0 && s[0] == '+' {
        s.skip(1)
    } else {
        s
    };
    if digits.len() > 0 && all_digits(digits) && digits_value(digits) <= u32::MAX {
        Some(digits_value(digits))
    } else {
        None
    }
}

/// Every character is an ASCII digit.
pub open spec fn all_digits(s: Seq<char>) -> bool {
    forall|i: int| 0 <= i < s.len() ==> '0' <= #[trigger] s[i] <= '9'
}

/// The value of a string of ASCII digits.
pub open spec fn digits_value(s: Seq<char>) -> nat
    decreases s.len(),
{
    if s.len() == 0 {
        0
    } else {
        digits_value(s.drop_last()) * 10 + ((s.last() as u32) - 48) as nat
    }
}

/// Reads a decimal `u32` as `str::parse` does.
pub fn parse_u32_exec(s: &Vec<char>) -> (r: Option<u32>)
    ensures
        match parse_u32(s@) {
            Some(v) => r == Some(v as u32),
            None => r is None,
        },
{
    let start: usize = if s.len() > 0 && s[0] == '+' {
        1
    } else {
        0
    };
    let ghost digits = if s@.len() > 0 && s@[0] == '+' {
        s@.skip(1)
    } else {
        s@
    };
    assert(digits =~= s@.skip(start as int));
    if start == s.len() {
        return None;
    }
    let mut v: u64 = 0;
    let mut i: usize = start;
    while i < s.len()
        invariant
            start <= i <= s.len(),
            digits == s@.skip(start as int),
            digits == (if s@.len() > 0 && s@[0] == '+' {
                s@.skip(1)
            } else {
                s@
            }),
            digits.len() > 0,
            all_digits(digits.take(i - start)),
            v == digits_value(digits.take(i - start)),
            v <= u32::MAX,
        decreases s.len() - i,
    {
        let c = s[i];
        if !('0' <= c && c <= '9') {
            assert(!all_digits(digits)) by {
                assert(digits[i - start] == c);
            }
            return None;
        }
        let d = (c as u32 - 48) as u64;
        let nv = v * 10 + d;
        proof {
            let t = digits.take(i - start + 1);
            assert(t.drop_last() =~= digits.take(i - start));
            assert(t.last() == c);
        }
        if nv > 0xFFFF_FFFF {
            proof {
                if all_digits(digits) {
                    lemma_digits_value_prefix(digits, i - start + 1);
                }
            }
            return None;
        }
        v = nv;
        i += 1;
    }
    assert(digits.take(s.len() - start) =~= digits);
    Some(v as u32)
}

/// A longer digit string never has a smaller value.
pub proof fn lemma_digits_value_prefix(s: Seq<char>, n: int)
    requires
        0 <= n <= s.len(),
        all_digits(s),
    ensures
        digits_value(s.take(n)) <= digits_value(s),
    decreases s.len(),
{
    if n < s.len() {
        lemma_digits_value_prefix(s.drop_last(), n);
        assert(s.drop_last().take(n) =~= s.take(n));
        assert(all_digits(s.drop_last()));
    } else {
        assert(s.take(n) =~= s);
    }
}

/// Two digits, zero-padded (`{:02}`).
pub open spec fn two_digits(n: nat) -> Seq<char> {
    if n < 10 {
        "0"@ + crate::text::dec(n)
    } else {
        crate::text::dec(n)
    }
}

/// The ISO-like week label of a `YYYY-MM-DD` date (`unknown` when it does
/// not parse, or its day of the year is zero or does not fit 32 bits).
pub open spec fn week_of(date: Seq<char>) -> Seq<char> {
    let parts = split(date, "-"@);
    if parts.len() >= 3 && parse_u32(parts[0]) is Some && parse_u32(parts[1]) is Some && parse_u32(
        parts[2],
    ) is Some && 1 <= day_of_year(parse_u32(parts[1]).unwrap(), parse_u32(parts[2]).unwrap()) <= u32::MAX {
        let doy = day_of_year(parse_u32(parts[1]).unwrap(), parse_u32(parts[2]).unwrap());
        dec(parse_u32(parts[0]).unwrap()) + "-W"@ + two_digits(((doy - 1) / 7 + 1) as nat)
    } else {
        "unknown"@
    }
}

/// The week label of a date, `{year}-W{week:02}`.
pub fn date_to_week(date: &str) -> (r: String)
    ensures
        r@ == week_of(date@),
{
    let dash = chars_of("-");
    proof {
        reveal_strlit("-");
    }
    let parts = split_exec(&chars_of(date), &dash);
    if parts.len() >= 3 {
        proof {
            crate::text::lemma_chars_dv(parts@[0]);
            crate::text::lemma_chars_dv(parts@[1]);
            crate::text::lemma_chars_dv(parts@[2]);
        }
        let y = parse_u32_exec(&parts[0]);
        let m = parse_u32_exec(&parts[1]);
        let d = parse_u32_exec(&parts[2]);
        match (y, m, d) {
            (Some(year), Some(month), Some(day)) => {
                let base: u64 = if month == 0 {
                    0
                } else if month - 1 > 11 {
                    334
                } else {
                    let days: [u64; 12] = [0, 31, 59, 90, 120, 151, 181, 212, 243, 273, 304, 334];
                    assert(days@ == seq![0u64, 31, 59, 90, 120, 151, 181, 212, 243, 273, 304, 334]);
                    days[(month - 1) as usize]
                };
                let whole = base + day as u64;
                assert(whole == day_of_year(month as nat, day as nat));
                if whole < 1 || whole > 0xFFFF_FFFF {
                    return "unknown".to_owned();
                }
                let doy = rough_day_of_year(month, day);
                let week = (doy - 1) / 7 + 1;
                let mut out = decimal(year as u64);
                append(&mut out, &chars_of("-W"));
                if week < 10 {
                    append(&mut out, &chars_of("0"));
                }
                append(&mut out, &decimal(week as u64));
                return string_of(out);
            },
            _ => {},
        }
    }
    "unknown".to_owned()
}

/// A session of the analysed history: its id and date.
pub struct SessionRef {
    pub session_id: String,
    pub date: String,
}

/// The index of the last session with id `sid` among the first `n`.
pub open spec fn session_slot(sessions: Seq<SessionRef>, sid: Seq<char>, n: int) -> Option<int>
    decreases n,
{
    if n <= 0 || n > sessions.len() {
        None
    } else if sessions[n - 1].session_id@ == sid {
        Some(n - 1)
    } else {
        session_slot(sessions, sid, n - 1)
    }
}

/// The indices of the aversions whose lower-cased text was not seen before.
pub open spec fn first_aversions(avs: Seq<MetaAversion>, n: int) -> Seq<int>
    decreases n,
{
    if n <= 0 || n > avs.len() {
        seq![]
    } else {
        let prev = first_aversions(avs, n - 1);
        if exists|j: int| 0 <= j < n - 1 && lowercase_of(#[trigger] avs[j].text@) == lowercase_of(avs[n - 1].text@) {
            prev
        } else {
            prev.push(n - 1)
        }
    }
}

/// The claim of a boundary: the aversion's text, cut at 117 bytes past 120.
pub open spec fn boundary_claim(text: Seq<char>) -> Seq<char> {
    "boundary: "@ + if byte_len(text) > 120 {
        text.take(fit_chars(text, 117) as int) + "..."@
    } else {
        text
    }
}

/// Long aversion texts have a character boundary at 117 bytes.
pub open spec fn claims_cut_cleanly(avs: Seq<MetaAversion>) -> bool {
    forall|i: int|
        0 <= i < avs.len() && byte_len(#[trigger] avs[i].text@) > 120 ==> byte_len(
            avs[i].text@.take(fit_chars(avs[i].text@, 117) as int),
        ) == 117
}

/// `p` is the boundary preference drawn from aversion `a`.
pub open spec fn boundary_pref(p: Preference, a: MetaAversion, sessions: Seq<SessionRef>) -> bool {
    let slot = session_slot(sessions, a.session_id@, sessions.len() as int);
    let date = match slot {
        Some(i) => sessions[i].date@,
        None => "unknown"@,
    };
    let idx = match slot {
        Some(i) => i,
        None => 0,
    };
    &&& p.claim@ == boundary_claim(a.text@)
    &&& p.dimension is Interaction
    &&& p.valence is Boundary
    &&& p.confidence.supporting == 1
    &&& p.confidence.contradicting == 0
    &&& p.first_observed@ == date
    &&& p.last_confirmed@ == date
    &&& p.provenance == provenance_of(idx as nat, sessions.len() as nat)
}

/// Boundary preferences: one per distinct aversion (by lower-cased text),
/// dated by the session it came from (`unknown` and the first session when
/// that session is not in the history).
pub fn infer_boundary_preferences(avs: &Vec<MetaAversion>, sessions: &Vec<SessionRef>) -> (r: Vec<Preference>)
    requires
        claims_cut_cleanly(avs@),
    ensures
        r.len() == first_aversions(avs@, avs@.len() as int).len(),
        forall|k: int|
            0 <= k < r.len() ==> boundary_pref(
                #[trigger] r@[k],
                avs@[first_aversions(avs@, avs@.len() as int)[k]],
                sessions@,
            ),
{
    let mut prefs: Vec<Preference> = Vec::new();
    let mut seen: Vec<Vec<char>> = Vec::new();
    let ghost mut picks: Seq<int> = seq![];
    let mut i: usize = 0;
    while i < avs.len()
        invariant
            i <= avs.len(),
            picks == first_aversions(avs@, i as int),
            forall|x: Seq<char>| seen.deep_view().contains(x) <==> exists|j: int| 0 <= j < i && x == lowercase_of(#[trigger] avs@[j].text@),
            claims_cut_cleanly(avs@),
            prefs.len() == picks.len(),
            forall|k: int|
                0 <= k < prefs.len() ==> boundary_pref(#[trigger] prefs@[k], avs@[picks[k]], sessions@),
            forall|k: int| 0 <= k < picks.len() ==> 0 <= #[trigger] picks[k] < i,
        decreases avs.len() - i,
    {
        let a = &avs[i];
        let norm = lower(&chars_of(a.text.as_str()));
        let dup = crate::markdown::holds_entry(&seen, &norm);
        if dup {
            assert forall|x: Seq<char>| seen.deep_view().contains(x) <==> exists|j: int| 0 <= j < i + 1 && x == lowercase_of(#[trigger] avs@[j].text@) by {
                if exists|j: int| 0 <= j < i + 1 && x == lowercase_of(#[trigger] avs@[j].text@) {
                    let j = choose|j: int| 0 <= j < i + 1 && x == lowercase_of(#[trigger] avs@[j].text@);
                    if j == i {
                        assert(x == norm@);
                    }
                }
            }
        }
        proof {
            if dup {
                let j = choose|j: int| 0 <= j < i && norm@ == lowercase_of(#[trigger] avs@[j].text@);
                assert(exists|j: int| 0 <= j < i && lowercase_of(#[trigger] avs@[j].text@) == lowercase_of(avs@[i as int].text@));
            } else {
                assert(!exists|j: int| 0 <= j < i && lowercase_of(#[trigger] avs@[j].text@) == lowercase_of(avs@[i as int].text@));
            }
        }
        if !dup {
            let ghost before = seen.deep_view();
            let nv = norm.clone();
            proof {
                crate::text::lemma_chars_dv(nv);
            }
            seen.push(nv);
            assert(seen.deep_view() =~= before.push(norm@));
            assert forall|x: Seq<char>| seen.deep_view().contains(x) <==> exists|j: int| 0 <= j < i + 1 && x == lowercase_of(#[trigger] avs@[j].text@) by {
                if x == norm@ {
                    assert(seen.deep_view()[before.len() as int] == x);
                    assert(x == lowercase_of(avs@[i as int].text@));
                }
                if seen.deep_view().contains(x) && x != norm@ {
                    let q = choose|q: int| 0 <= q < seen.deep_view().len() && seen.deep_view()[q] == x;
                    assert(before[q] == x);
                    assert(before.contains(x));
                }
                if exists|j: int| 0 <= j < i + 1 && x == lowercase_of(#[trigger] avs@[j].text@) {
                    if x != norm@ {
                        let j = choose|j: int| 0 <= j < i + 1 && x == lowercase_of(#[trigger] avs@[j].text@);
                        assert(j < i);
                        assert(before.contains(x));
                        let q = choose|q: int| 0 <= q < before.len() && before[q] == x;
                        assert(seen.deep_view()[q] == x);
                    } else {
                        assert(seen.deep_view()[before.len() as int] == x);
                    }
                }
            }
            // The session the aversion came from.
            let mut slot: Option<usize> = None;
            let mut n = sessions.len();
            while n > 0
                invariant
                    n <= sessions.len(),
                    *a == avs@[i as int],
                    slot is None ==> session_slot(sessions@, a.session_id@, sessions@.len() as int) == session_slot(sessions@, a.session_id@, n as int),
                    slot matches Some(q) ==> session_slot(sessions@, a.session_id@, sessions@.len() as int) == Some(q as int) && q < sessions.len(),
                decreases n,
            {
                if slot.is_none() && sessions[n - 1].session_id == a.session_id {
                    slot = Some(n - 1);
                }
                n -= 1;
            }
            let (idx, date) = match slot {
                Some(q) => (q, sessions[q].date.clone()),
                None => (0, "unknown".to_owned()),
            };
            let text = chars_of(a.text.as_str());
            let mut claim = chars_of("boundary: ");
            if !fits_exec(&text, 120) {
                let (k, _) = fit_chars_exec(&text, 117);
                append(&mut claim, &slice_of(&text, 0, k));
                append(&mut claim, &chars_of("..."));
            } else {
                append(&mut claim, &text);
            }
            let p = Preference {
                claim: string_of(claim),
                dimension: PreferenceDimension::Interaction,
                valence: Valence::Boundary,
                confidence: Confidence { supporting: 1, contradicting: 0 },
                first_observed: date.clone(),
                last_confirmed: date,
                provenance: classify_provenance(idx, sessions.len()),
            };
            assert(p.claim@ == boundary_claim(avs@[i as int].text@));
            assert(p.provenance == provenance_of(idx as nat, sessions@.len() as nat));
            assert(boundary_pref(p, avs@[i as int], sessions@));
            let ghost old_prefs = prefs@;
            let ghost old_picks = picks;
            prefs.push(p);
            proof {
                picks = picks.push(i as int);
                assert forall|k: int| 0 <= k < prefs.len() implies boundary_pref(#[trigger] prefs@[k], avs@[picks[k]], sessions@) by {
                    if k < old_prefs.len() {
                        assert(prefs@[k] == old_prefs[k]);
                        assert(picks[k] == old_picks[k]);
                    }
                }
            }
        }
        i += 1;
    }
    prefs
}

/// Files of a project's notes directory that hold no session.
pub open spec fn skipped_session_file(name: Seq<char>) -> bool {
    name == "_legacy.md"@ || crate::text::ends_with(name, ".bak"@) || name == "scout.md"@
}

/// Whether a file is left out when sessions are loaded.
pub fn is_skipped_session_file(name: &str) -> (r: bool)
    ensures
        r == skipped_session_file(name@),
{
    let n = chars_of(name);
    chars_eq(&n, &chars_of("_legacy.md")) || crate::text::ends_with_exec(&n, &chars_of(".bak")) || chars_eq(
        &n,
        &chars_of("scout.md"),
    )
}

/// Whether `infer_boundary_preferences` may be given these aversions.
pub fn claims_cut_cleanly_exec(avs: &Vec<MetaAversion>) -> (r: bool)
    ensures
        r == claims_cut_cleanly(avs@),
{
    let mut i: usize = 0;
    while i < avs.len()
        invariant
            i <= avs.len(),
            forall|k: int|
                0 <= k < i && byte_len(#[trigger] avs@[k].text@) > 120 ==> byte_len(
                    avs@[k].text@.take(fit_chars(avs@[k].text@, 117) as int),
                ) == 117,
        decreases avs.len() - i,
    {
        let t = chars_of(avs[i].text.as_str());
        if !fits_exec(&t, 120) {
            let (_, b) = fit_chars_exec(&t, 117);
            if b != 117 {
                return false;
            }
        }
        i += 1;
    }
    true
}


/// Preference `i` goes before preference `j` (each given as (supporting,
/// contradicting) counts): stronger support net of contradiction first, then
/// more support, then the earlier one.
pub open spec fn ranks_before(keys: Seq<(usize, usize)>, i: int, j: int) -> bool {
    let si = keys[i].0 - keys[i].1;
    let sj = keys[j].0 - keys[j].1;
    si > sj || (si == sj && (keys[i].0 > keys[j].0 || (keys[i].0 == keys[j].0 && i < j)))
}

/// The ranking of preferences: the indices of those with some support,
/// each once, in `ranks_before` order.
pub open spec fn is_ranking(keys: Seq<(usize, usize)>, r: Seq<usize>) -> bool {
    &&& forall|k: int| 0 <= k < r.len() ==> #[trigger] r[k] < keys.len() && keys[r[k] as int].0 > 0
    &&& forall|i: int| 0 <= i < keys.len() && keys[i].0 > 0 ==> r.contains(i as usize)
    &&& forall|a: int, b: int| 0 <= a < b < r.len() ==> ranks_before(keys, #[trigger] r[a] as int, #[trigger] r[b] as int)
}

fn ranks_before_exec(keys: &Vec<(usize, usize)>, i: usize, j: usize) -> (r: bool)
    requires
        i < keys.len(),
        j < keys.len(),
    ensures
        r == ranks_before(keys@, i as int, j as int),
{
    let (si, ci) = keys[i];
    let (sj, cj) = keys[j];
    let left = si as u128 + cj as u128;
    let right = sj as u128 + ci as u128;
    left > right || (left == right && (si > sj || (si == sj && i < j)))
}

/// Ranks preferences by their (supporting, contradicting) counts: those
/// with no support are dropped, the rest ordered by support net of
/// contradiction, then by support, ties kept in their order. The result
/// lists the kept preferences' indices.
pub fn rank_preferences(keys: &Vec<(usize, usize)>) -> (r: Vec<usize>)
    ensures
        is_ranking(keys@, r@),
{
    let mut r: Vec<usize> = Vec::new();
    let mut i: usize = 0;
    while i < keys.len()
        invariant
            i <= keys.len(),
            forall|k: int| 0 <= k < r.len() ==> #[trigger] r@[k] < i && keys@[r@[k] as int].0 > 0,
            forall|x: int| 0 <= x < i && keys@[x].0 > 0 ==> r@.contains(x as usize),
            forall|a: int, b: int| 0 <= a < b < r.len() ==> ranks_before(keys@, #[trigger] r@[a] as int, #[trigger] r@[b] as int),
        decreases keys.len() - i,
    {
        if keys[i].0 > 0 {
            let mut p: usize = 0;
            while p < r.len() && !ranks_before_exec(keys, i, r[p])
                invariant
                    p <= r.len(),
                    i < keys.len(),
                    forall|k: int| 0 <= k < r.len() ==> #[trigger] r@[k] < i,
                    forall|k: int| 0 <= k < p ==> !ranks_before(keys@, i as int, #[trigger] r@[k] as int),
                decreases r.len() - p,
            {
                p += 1;
            }
            let ghost old_r = r@;
            proof {
                // Everything before `p` ranks before `i`; `i` ranks before
                // everything from `p` on.
                assert forall|k: int| 0 <= k < p implies ranks_before(keys@, #[trigger] old_r[k] as int, i as int) by {
                    assert(!ranks_before(keys@, i as int, old_r[k] as int));
                }
                assert forall|k: int| p <= k < old_r.len() implies ranks_before(keys@, i as int, #[trigger] old_r[k] as int) by {
                    if k > p {
                        assert(ranks_before(keys@, old_r[p as int] as int, old_r[k] as int));
                    }
                }
            }
            r.insert(p, i);
            assert(r@ == old_r.insert(p as int, i));
            assert forall|x: int| 0 <= x < i && keys@[x].0 > 0 implies r@.contains(x as usize) by {
                let k = choose|k: int| 0 <= k < old_r.len() && old_r[k] == x as usize;
                if k < p {
                    assert(r@[k] == x as usize);
                } else {
                    assert(r@[k + 1] == x as usize);
                }
            }
            assert(r@[p as int] == i);
        }
        i += 1;
    }
    r
}
} // verus!
