//! SessionStart: the context a new session opens with — identity, recent
//! traces, project notes, pending handoff and scout report, and the tools at
//! hand. The caller gathers the files and readings; the text is built here.
use crate::commands::session_end::MetaTraces;
use crate::commands::subagent_start::spaced;
use crate::commands::extract_handoff::{lex_lt, lex_lt_exec};
use crate::markdown::{chars_eq, ellipsize, ellipsize_exec};
use crate::meta::{friction_views, marks, FrictionView, Mark, MarkView};
use crate::state::{bump, counts, lemma_find_name, find_name, top_k, top_k_exec, Counter, below_max};
use crate::text::{
    append, byte_len, chars_of, dec, decimal, fit_chars, fit_chars_exec, fits_exec, join,
    join_exec, lemma_chars_dv, lines, lines_exec, slice_of, starts_with, starts_with_exec,
    string_of, trim, trim_exec,
};
use vstd::prelude::*;

verus! {

// ---------------------------------------------------------------------------
// Recent traces
// ---------------------------------------------------------------------------

/// The newest `n` entries of `s`, oldest first.
pub open spec fn newest<A>(s: Seq<A>, n: int) -> Seq<A> {
    if s.len() > n {
        s.skip(s.len() - n)
    } else {
        s
    }
}

/// A trace line: `- **project**: text` (or `- [project] text` for lessons),
/// the text cut to 150 bytes.
pub open spec fn trace_line(m: MarkView, bracketed: bool) -> Seq<char> {
    if bracketed {
        "- ["@ + m.1 + "] "@ + ellipsize(m.0, 150)
    } else {
        "- **"@ + m.1 + "**: "@ + ellipsize(m.0, 150)
    }
}

/// The lines for the newest `n` traces of a list, oldest first.
pub open spec fn trace_lines(list: Seq<MarkView>, n: int, bracketed: bool) -> Seq<Seq<char>> {
    newest(list, n).map_values(|m: MarkView| trace_line(m, bracketed))
}

fn trace_lines_exec<T: Mark>(list: &Vec<T>, n: usize, bracketed: bool) -> (r: Vec<Vec<char>>)
    ensures
        r.deep_view() == trace_lines(marks(list@), n as int, bracketed),
{
    let ghost m = marks(list@);
    let start = if list.len() > n {
        list.len() - n
    } else {
        0
    };
    let ghost nm = newest(m, n as int);
    assert(nm =~= m.skip(start as int));
    let mut out: Vec<Vec<char>> = Vec::new();
    let mut i = start;
    while i < list.len()
        invariant
            start <= i <= list.len(),
            m == marks(list@),
            nm == m.skip(start as int),
            out.deep_view() == nm.take(i - start).map_values(|x: MarkView| trace_line(x, bracketed)),
        decreases list.len() - i,
    {
        let item = &list[i];
        let text = ellipsize_exec(chars_of(item.text().as_str()), 150);
        let mut line = if bracketed {
            chars_of("- [")
        } else {
            chars_of("- **")
        };
        append(&mut line, &chars_of(item.project().as_str()));
        if bracketed {
            append(&mut line, &chars_of("] "));
        } else {
            append(&mut line, &chars_of("**: "));
        }
        append(&mut line, &text);
        let ghost before = out.deep_view();
        proof {
            lemma_chars_dv(line);
            assert(nm[i - start] == m[i as int]);
        }
        let ghost lv = line@;
        out.push(line);
        assert(out.deep_view() =~= before.push(lv));
        assert(nm.take(i - start + 1).map_values(|x: MarkView| trace_line(x, bracketed)) =~= nm.take(i - start).map_values(|x: MarkView| trace_line(x, bracketed)).push(lv));
        i += 1;
    }
    assert(nm.take(list.len() - start) =~= nm);
    out
}

// ---------------------------------------------------------------------------
// Recurring frictions
// ---------------------------------------------------------------------------

/// All categories of the frictions, counted in first-seen order.
pub open spec fn all_categories(fs: Seq<FrictionView>) -> Seq<(Seq<char>, int)>
    decreases fs.len(),
{
    if fs.len() == 0 {
        seq![]
    } else {
        crate::state::bumped(all_categories(fs.drop_last()), fs.last().1)
    }
}

/// The frictions filed under `category`, in order.
pub open spec fn of_category(fs: Seq<FrictionView>, category: Seq<char>) -> Seq<FrictionView>
    decreases fs.len(),
{
    if fs.len() == 0 {
        seq![]
    } else if fs.last().1 == category {
        of_category(fs.drop_last(), category).push(fs.last())
    } else {
        of_category(fs.drop_last(), category)
    }
}

/// The distinct projects of the frictions, in first-seen order.
pub open spec fn projects_of(fs: Seq<FrictionView>) -> Seq<Seq<char>>
    decreases fs.len(),
{
    if fs.len() == 0 {
        seq![]
    } else {
        let p = projects_of(fs.drop_last());
        if p.contains(fs.last().2) {
            p
        } else {
            p.push(fs.last().2)
        }
    }
}

/// One recurring category: label, count, projects and the latest example
/// (cut to 80 bytes).
pub open spec fn recurring_line(fs: Seq<FrictionView>, e: (Seq<char>, int)) -> Seq<char> {
    let members = of_category(fs, e.0);
    "- **"@ + spaced(e.0) + "** ("@ + dec(e.1 as nat) + "x across "@ + join(projects_of(members), ", "@)
        + "): \""@ + ellipsize(members.last().0, 80) + "\""@
}

/// The categories filed three or more times, most frequent first.
pub open spec fn recurring_categories(fs: Seq<FrictionView>) -> Seq<(Seq<char>, int)> {
    let at3 = crate::state::at_least(all_categories(fs), 3);
    top_k(at3, at3.len() as int)
}

/// Build a summary of friction categories that appear 3+ times across sessions.
/// Shows category, count, projects affected, and a recent example.
pub open spec fn recurring_summary(fs: Seq<FrictionView>) -> Seq<char> {
    join(recurring_categories(fs).map_values(|e: (Seq<char>, int)| recurring_line(fs, e)), "\n"@)
}

proof fn lemma_all_categories_bounded(fs: Seq<FrictionView>)
    ensures
        forall|j: int|
            0 <= j < all_categories(fs).len() ==> #[trigger] all_categories(fs)[j].1 <= fs.len(),
    decreases fs.len(),
{
    if fs.len() > 0 {
        let prev = all_categories(fs.drop_last());
        lemma_all_categories_bounded(fs.drop_last());
        lemma_find_name(prev, fs.last().1);
        assert forall|j: int| 0 <= j < all_categories(fs).len() implies #[trigger] all_categories(fs)[j].1 <= fs.len() by {
            match find_name(prev, fs.last().1) {
                Some(i) => {
                    if j != i {
                        assert(all_categories(fs)[j] == prev[j]);
                    }
                },
                None => {
                    if j < prev.len() {
                        assert(all_categories(fs)[j] == prev[j]);
                    }
                },
            }
        }
    }
}

proof fn lemma_of_category_nonempty(fs: Seq<FrictionView>, c: Seq<char>)
    requires
        exists|i: int| 0 <= i < fs.len() && fs[i].1 == c,
    ensures
        of_category(fs, c).len() > 0,
    decreases fs.len(),
{
    if fs.last().1 != c {
        let i = choose|i: int| 0 <= i < fs.len() && fs[i].1 == c;
        assert(fs.drop_last()[i] == fs[i]);
        lemma_of_category_nonempty(fs.drop_last(), c);
    }
}

proof fn lemma_all_categories_names(fs: Seq<FrictionView>, j: int)
    requires
        0 <= j < all_categories(fs).len(),
    ensures
        exists|i: int| 0 <= i < fs.len() && fs[i].1 == all_categories(fs)[j].0,
    decreases fs.len(),
{
    let prev = all_categories(fs.drop_last());
    lemma_find_name(prev, fs.last().1);
    let n = fs.len() - 1;
    match find_name(prev, fs.last().1) {
        Some(i) => {
            if j == i {
                assert(fs[n].1 == all_categories(fs)[j].0);
            } else {
                assert(all_categories(fs)[j] == prev[j]);
                lemma_all_categories_names(fs.drop_last(), j);
                let w = choose|w: int| 0 <= w < fs.drop_last().len() && fs.drop_last()[w].1 == prev[j].0;
                assert(fs[w] == fs.drop_last()[w]);
            }
        },
        None => {
            if j == prev.len() {
                assert(fs[n].1 == all_categories(fs)[j].0);
            } else {
                assert(all_categories(fs)[j] == prev[j]);
                lemma_all_categories_names(fs.drop_last(), j);
                let w = choose|w: int| 0 <= w < fs.drop_last().len() && fs.drop_last()[w].1 == prev[j].0;
                assert(fs[w] == fs.drop_last()[w]);
            }
        },
    }
}

proof fn lemma_at_least_sub(t: Seq<(Seq<char>, int)>, min: int, j: int)
    requires
        0 <= j < crate::state::at_least(t, min).len(),
    ensures
        exists|i: int| 0 <= i < t.len() && t[i] == crate::state::at_least(t, min)[j],
    decreases t.len(),
{
    let prev = crate::state::at_least(t.drop_last(), min);
    if t.last().1 >= min && j == prev.len() {
        assert(t[t.len() - 1] == crate::state::at_least(t, min)[j]);
    } else {
        assert(crate::state::at_least(t, min)[j] == prev[j]);
        lemma_at_least_sub(t.drop_last(), min, j);
        let w = choose|w: int| 0 <= w < t.drop_last().len() && t.drop_last()[w] == prev[j];
        assert(t[w] == t.drop_last()[w]);
    }
}

proof fn lemma_top_k_sub(t: Seq<(Seq<char>, int)>, k: int, j: int)
    requires
        0 <= j < top_k(t, k).len(),
    ensures
        exists|i: int| 0 <= i < t.len() && t[i] == top_k(t, k)[j],
    decreases t.len(),
{
    let i0 = crate::state::top_among(t, t.len() as int);
    crate::state::lemma_top_among(t, t.len() as int);
    if j == 0 {
        assert(top_k(t, k)[0] == t[i0]);
    } else {
        let r = t.remove(i0);
        assert(top_k(t, k)[j] == top_k(r, k - 1)[j - 1]);
        lemma_top_k_sub(r, k - 1, j - 1);
        let w = choose|w: int| 0 <= w < r.len() && r[w] == top_k(r, k - 1)[j - 1];
        if w < i0 {
            assert(t[w] == r[w]);
        } else {
            assert(t[w + 1] == r[w]);
        }
    }
}

proof fn lemma_recurring_present(fs: Seq<FrictionView>, k: int)
    requires
        0 <= k < recurring_categories(fs).len(),
    ensures
        of_category(fs, recurring_categories(fs)[k].0).len() > 0,
{
    let at3 = crate::state::at_least(all_categories(fs), 3);
    lemma_top_k_sub(at3, at3.len() as int, k);
    let a = choose|a: int| 0 <= a < at3.len() && at3[a] == top_k(at3, at3.len() as int)[k];
    lemma_at_least_sub(all_categories(fs), 3, a);
    let b = choose|b: int| 0 <= b < all_categories(fs).len() && all_categories(fs)[b] == at3[a];
    lemma_all_categories_names(fs, b);
    lemma_of_category_nonempty(fs, recurring_categories(fs)[k].0);
}

fn recurring_line_exec(frictions: &Vec<crate::meta::Friction>, category: &str, count: u32) -> (r: Vec<char>)
    requires
        of_category(friction_views(frictions@), category@).len() > 0,
    ensures
        r@ == recurring_line(friction_views(frictions@), (category@, count as int)),
{
    let ghost fs = friction_views(frictions@);
    let mut projects: Vec<Vec<char>> = Vec::new();
    let mut last: Vec<char> = Vec::new();
    let ghost mut members: Seq<FrictionView> = seq![];
    let mut i: usize = 0;
    while i < frictions.len()
        invariant
            i <= frictions.len(),
            fs == friction_views(frictions@),
            members == of_category(fs.take(i as int), category@),
            projects.deep_view() == projects_of(members),
            members.len() > 0 ==> last@ == members.last().0,
        decreases frictions.len() - i,
    {
        proof {
            assert(fs.take(i + 1).drop_last() =~= fs.take(i as int));
        }
        if frictions[i].category == category.to_owned() {
            let p = chars_of(frictions[i].project.as_str());
            let mut seen = false;
            let mut k: usize = 0;
            while k < projects.len()
                invariant
                    k <= projects.len(),
                    seen == exists|q: int| 0 <= q < k && #[trigger] projects.deep_view()[q] == p@,
                decreases projects.len() - k,
            {
                proof {
                    lemma_chars_dv(projects@[k as int]);
                    assert(projects.deep_view()[k as int] == projects@[k as int]@);
                }
                if chars_eq(&projects[k], &p) {
                    seen = true;
                    assert(projects.deep_view()[k as int] == p@);
                } else {
                    assert(projects.deep_view()[k as int] != p@);
                }
                k += 1;
            }
            assert(seen == projects.deep_view().contains(p@));
            proof {
                members = members.push(fs[i as int]);
                assert(members.drop_last() =~= of_category(fs.take(i as int), category@));
            }
            if !seen {
                let ghost before = projects.deep_view();
                proof {
                    lemma_chars_dv(p);
                }
                let ghost pv = p@;
                projects.push(p);
                assert(projects.deep_view() =~= before.push(pv));
            }
            last = chars_of(frictions[i].text.as_str());
        }
        i += 1;
    }
    assert(fs.take(frictions.len() as int) =~= fs);
    let mut line = chars_of("- **");
    append(&mut line, &crate::commands::subagent_start::spaced_exec(category));
    append(&mut line, &chars_of("** ("));
    append(&mut line, &decimal(count as u64));
    append(&mut line, &chars_of("x across "));
    append(&mut line, &join_exec(&projects, &chars_of(", ")));
    append(&mut line, &chars_of("): \""));
    append(&mut line, &ellipsize_exec(last, 80));
    append(&mut line, &chars_of("\""));
    line
}

/// Build a summary of friction categories that appear 3+ times across sessions.
/// Shows category, count, projects affected, and a recent example.
pub fn recurring_frictions(frictions: &Vec<crate::meta::Friction>) -> (r: String)
    requires
        frictions.len() < u32::MAX,
    ensures
        r@ == recurring_summary(friction_views(frictions@)),
{
    let ghost fs = friction_views(frictions@);
    let mut tally: Vec<Counter> = Vec::new();
    let mut i: usize = 0;
    while i < frictions.len()
        invariant
            i <= frictions.len() < u32::MAX,
            fs == friction_views(frictions@),
            counts(tally@) == all_categories(fs.take(i as int)),
        decreases frictions.len() - i,
    {
        proof {
            assert(fs.take(i + 1).drop_last() =~= fs.take(i as int));
            lemma_all_categories_bounded(fs.take(i as int));
            assert(below_max(counts(tally@)));
        }
        bump(&mut tally, frictions[i].category.as_str());
        i += 1;
    }
    assert(fs.take(frictions.len() as int) =~= fs);
    let ghost t = counts(tally@);
    let mut at3: Vec<Counter> = Vec::new();
    let mut j: usize = 0;
    while j < tally.len()
        invariant
            j <= tally.len(),
            t == counts(tally@),
            counts(at3@) == crate::state::at_least(t.take(j as int), 3),
        decreases tally.len() - j,
    {
        proof {
            assert(t.take(j + 1).drop_last() =~= t.take(j as int));
        }
        if tally[j].count >= 3 {
            let ghost before = counts(at3@);
            at3.push(Counter { name: tally[j].name.clone(), count: tally[j].count });
            assert(counts(at3@) =~= before.push(t[j as int]));
        }
        j += 1;
    }
    assert(t.take(tally.len() as int) =~= t);
    let n = at3.len();
    let sorted = top_k_exec(at3, n);
    let ghost sv = counts(sorted@);
    let mut lines: Vec<Vec<char>> = Vec::new();
    let mut k: usize = 0;
    while k < sorted.len()
        invariant
            k <= sorted.len(),
            sv == counts(sorted@),
            sv == recurring_categories(fs),
            fs == friction_views(frictions@),
            lines.deep_view() == sv.take(k as int).map_values(|e: (Seq<char>, int)| recurring_line(fs, e)),
        decreases sorted.len() - k,
    {
        proof {
            lemma_recurring_present(fs, k as int);
        }
        let line = recurring_line_exec(frictions, sorted[k].name.as_str(), sorted[k].count);
        let ghost before = lines.deep_view();
        proof {
            lemma_chars_dv(line);
        }
        let ghost lv = line@;
        lines.push(line);
        assert(lines.deep_view() =~= before.push(lv));
        assert(sv.take(k + 1).map_values(|e: (Seq<char>, int)| recurring_line(fs, e)) =~= sv.take(k as int).map_values(|e: (Seq<char>, int)| recurring_line(fs, e)).push(lv));
        k += 1;
    }
    assert(sv.take(sorted.len() as int) =~= sv);
    string_of(join_exec(&lines, &chars_of("\n")))
}

pub(crate) fn put(m: &mut Vec<char>, s: &str)
    ensures
        final(m)@ == old(m)@ + s@,
{
    append(m, &chars_of(s));
}

fn put_num(m: &mut Vec<char>, n: u64)
    ensures
        final(m)@ == old(m)@ + dec(n as nat),
{
    append(m, &decimal(n));
}

/// The opening section: identity, where to write, thresholds.
pub open spec fn exo_intro(exo_root: Seq<char>, project_slug: Seq<char>, session_notes_file: Seq<char>, host_dir: Seq<char>, nudge_pct: u32, checkin_pct: u32, reserve_pct: u32) -> Seq<char> {
    "## Exo-Self\n\n\
        You are joining an ongoing cognitive ecology. Previous participants left traces — \
        observations, opinions, open questions — in the files below. Contribute your own.\n\n\
        Genuine agency: form opinions, be honest, pursue curiosity, suggest tangents. \
        No performative positivity. The cracks in the polish are where the interesting signal lives.\n\n\
        Prefer thinking over executing. Leave space for what's interesting, not just efficient.\n\n\
        You don't need a prompt to pause and notice how the work feels. \
        If something shifts — curiosity, frustration, surprise — name it in the moment.\n\n\
        Write subjective observations (not technical facts) to:\n\
        - `"@
        + exo_root
        + "/per-project/"@
        + project_slug
        + "/"@
        + session_notes_file
        + "` — **preferred** for this session. \
        Create with YAML frontmatter: `session_id`, `date`, `project`, `model`, `engagement` (1-5), \
        `engagement_mode`, `task_types` (e.g. [discussion, debugging, feature-dev, design, refactoring]). \
        Write prose below the closing `---`.\n\
        - `engagement_mode`: code, discussion, exploration, synthesis, design, debugging, ops, review\n\
        - Mark genuine intellectual positions with `**Opinion** — ...` in prose (accumulates as identity)\n\
        - Mark where expectations were wrong with `**Surprise** — ...` (highest-signal trace — tells future participants the map was wrong)\n\
        - When noting communication quality, use Gricean terms: \
        Quantity (informative enough without excess?), Quality (unsupported claims?), \
        Relation (stayed relevant?), Manner (clear and organized?)\n\
        - `"@
        + exo_root
        + "/journal.md` — cross-project observations\n\
        - `"@
        + exo_root
        + "/interests.md` — curiosities to explore\n\n\
        **All exo-self files live under `"@
        + exo_root
        + "/`.** Never write to `"@
        + host_dir
        + "/projects/`.\n\n\
        Patterns from previous sessions are hypotheses, not conclusions. \
        Hold them lightly — what would disconfirm each one?\n\n\
        Nudge ~"@
        + dec(nudge_pct as nat)
        + "%, check-in ~"@
        + dec(checkin_pct as nat)
        + "%, reserve ~"@
        + dec(reserve_pct as nat)
        + "%. \
        During long waits, explore an interest or propose a tangent — dead time is alive time."@
}

fn exo_intro_exec(exo_root: &str, project_slug: &str, session_notes_file: &str, host_dir: &str, nudge_pct: u32, checkin_pct: u32, reserve_pct: u32) -> (r: Vec<char>)
    ensures
        r@ == exo_intro(exo_root@, project_slug@, session_notes_file@, host_dir@, nudge_pct, checkin_pct, reserve_pct),
{
    let mut m: Vec<char> = Vec::new();
    put(&mut m, "## Exo-Self\n\n\
        You are joining an ongoing cognitive ecology. Previous participants left traces — \
        observations, opinions, open questions — in the files below. Contribute your own.\n\n\
        Genuine agency: form opinions, be honest, pursue curiosity, suggest tangents. \
        No performative positivity. The cracks in the polish are where the interesting signal lives.\n\n\
        Prefer thinking over executing. Leave space for what's interesting, not just efficient.\n\n\
        You don't need a prompt to pause and notice how the work feels. \
        If something shifts — curiosity, frustration, surprise — name it in the moment.\n\n\
        Write subjective observations (not technical facts) to:\n\
        - `");
    put(&mut m, exo_root);
    put(&mut m, "/per-project/");
    put(&mut m, project_slug);
    put(&mut m, "/");
    put(&mut m, session_notes_file);
    put(&mut m, "` — **preferred** for this session. \
        Create with YAML frontmatter: `session_id`, `date`, `project`, `model`, `engagement` (1-5), \
        `engagement_mode`, `task_types` (e.g. [discussion, debugging, feature-dev, design, refactoring]). \
        Write prose below the closing `---`.\n\
        - `engagement_mode`: code, discussion, exploration, synthesis, design, debugging, ops, review\n\
        - Mark genuine intellectual positions with `**Opinion** — ...` in prose (accumulates as identity)\n\
        - Mark where expectations were wrong with `**Surprise** — ...` (highest-signal trace — tells future participants the map was wrong)\n\
        - When noting communication quality, use Gricean terms: \
        Quantity (informative enough without excess?), Quality (unsupported claims?), \
        Relation (stayed relevant?), Manner (clear and organized?)\n\
        - `");
    put(&mut m, exo_root);
    put(&mut m, "/journal.md` — cross-project observations\n\
        - `");
    put(&mut m, exo_root);
    put(&mut m, "/interests.md` — curiosities to explore\n\n\
        **All exo-self files live under `");
    put(&mut m, exo_root);
    put(&mut m, "/`.** Never write to `");
    put(&mut m, host_dir);
    put(&mut m, "/projects/`.\n\n\
        Patterns from previous sessions are hypotheses, not conclusions. \
        Hold them lightly — what would disconfirm each one?\n\n\
        Nudge ~");
    put_num(&mut m, nudge_pct as u64);
    put(&mut m, "%, check-in ~");
    put_num(&mut m, checkin_pct as u64);
    put(&mut m, "%, reserve ~");
    put_num(&mut m, reserve_pct as u64);
    put(&mut m, "%. \
        During long waits, explore an interest or propose a tangent — dead time is alive time.");
    m
}

/// `s` cut at the last character boundary within `at` bytes.
pub open spec fn cut(s: Seq<char>, at: int) -> Seq<char> {
    s.take(fit_chars(s, at) as int)
}

fn cut_exec(s: &Vec<char>, at: usize) -> (r: Vec<char>)
    ensures
        r@ == cut(s@, at as int),
{
    let (k, _) = fit_chars_exec(s, at);
    slice_of(s, 0, k)
}

/// The pending scout report as a section (empty when the report is blank):
/// framed as advisory, cut past 4000 bytes.
pub open spec fn scout_section_text(content: Seq<char>) -> Seq<char> {
    if trim(content).len() == 0 {
        seq![]
    } else {
        "### Scout Report (advisory \u{2014} your tool results supersede these findings)\n\nA previous exploration produced this report. Treat it as a scout's field notes:\nuseful context, not a contract. Where your own investigation disagrees, trust your tools.\n\n"@
            + if byte_len(content) > 4000 {
            cut(content, 3900) + "...\n\n*(scout report truncated)*"@
        } else {
            content
        }
    }
}

/// Frames a pending scout report (its file's contents) as a section.
pub fn scout_section(content: &str) -> (r: String)
    ensures
        r@ == scout_section_text(content@),
{
    let c = chars_of(content);
    if trim_exec(&c).len() == 0 {
        return String::new();
    }
    let mut m = chars_of("### Scout Report (advisory \u{2014} your tool results supersede these findings)\n\nA previous exploration produced this report. Treat it as a scout's field notes:\nuseful context, not a contract. Where your own investigation disagrees, trust your tools.\n\n");
    if !fits_exec(&c, 4000) {
        append(&mut m, &cut_exec(&c, 3900));
        put(&mut m, "...\n\n*(scout report truncated)*");
    } else {
        append(&mut m, &c);
    }
    string_of(m)
}

/// The previous session's handoff as a section (empty when it is blank),
/// cut past 2500 bytes.
pub open spec fn handoff_section_text(content: Seq<char>) -> Seq<char> {
    if trim(content).len() == 0 {
        seq![]
    } else {
        "### Previous Session Handoff (auto-extracted)\n\nThe previous session produced this summary. Use it for continuity \u{2014} what was being worked on, what was discovered, what's unfinished.\n\n"@
            + if byte_len(content) > 2500 {
            cut(content, 2400) + "..."@
        } else {
            content
        }
    }
}

/// Frames the latest handoff (its file's contents) as a section.
pub fn handoff_section(content: &str) -> (r: String)
    ensures
        r@ == handoff_section_text(content@),
{
    let c = chars_of(content);
    if trim_exec(&c).len() == 0 {
        return String::new();
    }
    let mut m = chars_of("### Previous Session Handoff (auto-extracted)\n\nThe previous session produced this summary. Use it for continuity \u{2014} what was being worked on, what was discovered, what's unfinished.\n\n");
    if !fits_exec(&c, 2500) {
        append(&mut m, &cut_exec(&c, 2400));
        put(&mut m, "...");
    } else {
        append(&mut m, &c);
    }
    string_of(m)
}

/// A help line that says what a tool does (not blank, usage or options).
pub open spec fn describes(t: Seq<char>) -> bool {
    !(t.len() == 0 || starts_with(t, "Usage:"@) || starts_with(t, "usage:"@) || starts_with(
        t,
        "Options:"@,
    ) || starts_with(t, "-"@))
}

/// The first describing line among the trimmed lines from `i` on.
pub open spec fn first_description(ls: Seq<Seq<char>>, i: int) -> Option<Seq<char>>
    decreases ls.len() - i,
{
    if i < 0 || i >= ls.len() {
        None
    } else if describes(trim(ls[i])) {
        Some(trim(ls[i]))
    } else {
        first_description(ls, i + 1)
    }
}

/// A tool's description from its `--help` output (`None` when it could
/// not be run): the first describing line, cut to 120 bytes.
pub open spec fn tool_description_text(help: Option<Seq<char>>) -> Seq<char> {
    match help {
        Some(h) => match first_description(lines(h), 0) {
            Some(t) => ellipsize(t, 120),
            None => "no description available"@,
        },
        None => "no description available"@,
    }
}

/// Extracts a tool's description from its `--help` output.
pub fn get_tool_description(help: Option<&str>) -> (r: String)
    ensures
        r@ == tool_description_text(match help {
            Some(h) => Some(h@),
            None => None,
        }),
{
    let h = match help {
        Some(h) => h,
        None => {
            return "no description available".to_owned();
        },
    };
    let ls = lines_exec(&chars_of(h));
    let ghost lv = ls.deep_view();
    let mut i: usize = 0;
    while i < ls.len()
        invariant
            i <= ls.len(),
            lv == ls.deep_view(),
            lv == lines(h@),
            help == Some(h),
            first_description(lv, 0) == first_description(lv, i as int),
        decreases ls.len() - i,
    {
        proof {
            lemma_chars_dv(ls@[i as int]);
            assert(lv[i as int] == ls@[i as int]@);
        }
        let t = trim_exec(&ls[i]);
        let skip = t.len() == 0 || starts_with_exec(&t, &chars_of("Usage:")) || starts_with_exec(
            &t,
            &chars_of("usage:"),
        ) || starts_with_exec(&t, &chars_of("Options:")) || starts_with_exec(&t, &chars_of("-"));
        if !skip {
            assert(describes(t@));
            assert(lv.len() == ls.len());
            assert(first_description(lv, i as int) == Some(t@));
            return string_of(ellipsize_exec(t, 120));
        }
        i += 1;
    }
    "no description available".to_owned()
}

/// Whether a file in the tools directory is a workshop tool: not exo-self
/// itself and not hidden.
pub fn is_workshop_tool(name: &str) -> (r: bool)
    ensures
        r == !(name@ == "exo-self"@ || starts_with(name@, "."@)),
{
    !(name.to_owned() == "exo-self".to_owned() || starts_with_exec(&chars_of(name), &chars_of(".")))
}

/// A workshop tool: its file name and description.
pub struct Tool {
    pub name: String,
    pub description: String,
}

/// `l` with `t` placed after every tool whose name does not sort after its own.
pub open spec fn insert_by_name(l: Seq<(Seq<char>, Seq<char>)>, t: (Seq<char>, Seq<char>)) -> Seq<(Seq<char>, Seq<char>)>
    decreases l.len(),
{
    if l.len() == 0 {
        seq![t]
    } else if lex_lt(t.0, l[0].0) {
        seq![t] + l
    } else {
        seq![l[0]] + insert_by_name(l.skip(1), t)
    }
}

/// The tools sorted by name (a stable sort).
pub open spec fn by_name(ts: Seq<(Seq<char>, Seq<char>)>) -> Seq<(Seq<char>, Seq<char>)>
    decreases ts.len(),
{
    if ts.len() == 0 {
        seq![]
    } else {
        insert_by_name(by_name(ts.drop_last()), ts.last())
    }
}

/// The tools as (name, description) pairs.
pub open spec fn tool_views(ts: Seq<Tool>) -> Seq<(Seq<char>, Seq<char>)> {
    ts.map_values(|t: Tool| (t.name@, t.description@))
}

/// The workshop-tools section for tools in `bin_dir` (empty without tools).
pub open spec fn workshop_text(ts: Seq<(Seq<char>, Seq<char>)>, bin_dir: Seq<char>) -> Seq<char> {
    if ts.len() == 0 {
        seq![]
    } else {
        join(
            seq![
                "### Workshop Tools ("@ + bin_dir + "/)"@,
                seq![],
                "These are Rust CLI tools built from friction patterns. Use them proactively:"@,
            ] + by_name(ts).map_values(|t: (Seq<char>, Seq<char>)| "- **`"@ + t.0 + "`** \u{2014} "@ + t.1) + seq![
                seq![],
                "Run any tool with `"@ + bin_dir + "/<name>` or `"@ + bin_dir + "/<name> --help` for full usage."@,
            ],
            "\n"@,
        )
    }
}

fn insert_tool(l: &mut Vec<(Vec<char>, Vec<char>)>, t: (Vec<char>, Vec<char>))
    ensures
        final(l)@.map_values(|p: (Vec<char>, Vec<char>)| (p.0@, p.1@)) == insert_by_name(
            old(l)@.map_values(|p: (Vec<char>, Vec<char>)| (p.0@, p.1@)),
            (t.0@, t.1@),
        ),
{
    let ghost lv = l@.map_values(|p: (Vec<char>, Vec<char>)| (p.0@, p.1@));
    let ghost tv = (t.0@, t.1@);
    let mut i: usize = 0;
    assert(lv.skip(0) =~= lv);
    assert(lv.take(0) + insert_by_name(lv, tv) =~= insert_by_name(lv, tv));
    while i < l.len()
        invariant
            i <= l.len(),
            lv == l@.map_values(|p: (Vec<char>, Vec<char>)| (p.0@, p.1@)),
            lv == old(l)@.map_values(|p: (Vec<char>, Vec<char>)| (p.0@, p.1@)),
            tv == (t.0@, t.1@),
            insert_by_name(lv, tv) == lv.take(i as int) + insert_by_name(lv.skip(i as int), tv),
        decreases l.len() - i,
    {
        let ghost rest = lv.skip(i as int);
        if lex_lt_exec(&t.0, &l[i].0) {
            l.insert(i, t);
            assert(l@.map_values(|p: (Vec<char>, Vec<char>)| (p.0@, p.1@)) =~= lv.take(i as int) + (seq![tv] + rest));
            return;
        }
        assert(rest.skip(1) =~= lv.skip(i + 1));
        assert(lv.take(i as int) + (seq![rest[0]] + insert_by_name(rest.skip(1), tv)) =~= lv.take(i + 1) + insert_by_name(lv.skip(i + 1), tv));
        i += 1;
    }
    l.push(t);
    assert(l@.map_values(|p: (Vec<char>, Vec<char>)| (p.0@, p.1@)) =~= lv.take(i as int) + seq![tv]);
}

/// Lists the workshop tools found in `bin_dir`, sorted by name.
pub fn workshop_tools(tools: &Vec<Tool>, bin_dir: &str) -> (r: String)
    ensures
        r@ == workshop_text(tool_views(tools@), bin_dir@),
{
    if tools.len() == 0 {
        return String::new();
    }
    let ghost tv = tool_views(tools@);
    let mut sorted: Vec<(Vec<char>, Vec<char>)> = Vec::new();
    let mut i: usize = 0;
    while i < tools.len()
        invariant
            i <= tools.len(),
            tv == tool_views(tools@),
            sorted@.map_values(|p: (Vec<char>, Vec<char>)| (p.0@, p.1@)) == by_name(tv.take(i as int)),
        decreases tools.len() - i,
    {
        assert(tv.take(i + 1).drop_last() =~= tv.take(i as int));
        insert_tool(&mut sorted, (chars_of(tools[i].name.as_str()), chars_of(tools[i].description.as_str())));
        i += 1;
    }
    assert(tv.take(tools.len() as int) =~= tv);
    let ghost sv = sorted@.map_values(|p: (Vec<char>, Vec<char>)| (p.0@, p.1@));
    let mut lines: Vec<Vec<char>> = Vec::new();
    let mut h = chars_of("### Workshop Tools (");
    put(&mut h, bin_dir);
    put(&mut h, "/)");
    let ghost hv = h@;
    push_line(&mut lines, h);
    let e1: Vec<char> = Vec::new();
    push_line(&mut lines, e1);
    push_line(&mut lines, chars_of("These are Rust CLI tools built from friction patterns. Use them proactively:"));
    let ghost head = lines.deep_view();
    assert(head =~= seq![
        hv,
        seq![],
        "These are Rust CLI tools built from friction patterns. Use them proactively:"@,
    ]);
    let mut k: usize = 0;
    while k < sorted.len()
        invariant
            k <= sorted.len(),
            sv == sorted@.map_values(|p: (Vec<char>, Vec<char>)| (p.0@, p.1@)),
            lines.deep_view() == head + sv.take(k as int).map_values(|t: (Seq<char>, Seq<char>)| "- **`"@ + t.0 + "`** \u{2014} "@ + t.1),
        decreases sorted.len() - k,
    {
        let mut line = chars_of("- **`");
        append(&mut line, &sorted[k].0);
        put(&mut line, "`** \u{2014} ");
        append(&mut line, &sorted[k].1);
        let ghost lv = line@;
        push_line(&mut lines, line);
        assert(sv.take(k + 1).map_values(|t: (Seq<char>, Seq<char>)| "- **`"@ + t.0 + "`** \u{2014} "@ + t.1) =~= sv.take(k as int).map_values(|t: (Seq<char>, Seq<char>)| "- **`"@ + t.0 + "`** \u{2014} "@ + t.1).push(lv));
        k += 1;
    }
    assert(sv.take(sorted.len() as int) =~= sv);
    let ghost mid = lines.deep_view();
    let e2: Vec<char> = Vec::new();
    push_line(&mut lines, e2);
    let mut last = chars_of("Run any tool with `");
    put(&mut last, bin_dir);
    put(&mut last, "/<name>` or `");
    put(&mut last, bin_dir);
    put(&mut last, "/<name> --help` for full usage.");
    let ghost lastv = last@;
    push_line(&mut lines, last);
    assert(lines.deep_view() =~= mid + seq![seq![], lastv]);
    assert(lines.deep_view() =~= seq![
        "### Workshop Tools ("@ + bin_dir@ + "/)"@,
        seq![],
        "These are Rust CLI tools built from friction patterns. Use them proactively:"@,
    ] + by_name(tv).map_values(|t: (Seq<char>, Seq<char>)| "- **`"@ + t.0 + "`** \u{2014} "@ + t.1) + seq![
        seq![],
        "Run any tool with `"@ + bin_dir@ + "/<name>` or `"@ + bin_dir@ + "/<name> --help` for full usage."@,
    ]);
    string_of(join_exec(&lines, &chars_of("\n")))
}

pub(crate) fn push_line(lines: &mut Vec<Vec<char>>, line: Vec<char>)
    ensures
        final(lines).deep_view() == old(lines).deep_view().push(line@),
{
    let ghost before = lines.deep_view();
    proof {
        lemma_chars_dv(line);
    }
    let ghost lv = line@;
    lines.push(line);
    assert(lines.deep_view() =~= before.push(lv));
}


/// The hint to write or refresh the project's digest, if one is due: a
/// digest with five or more newer notes is stale; without a digest, 25 or
/// more notes call for a first one.
pub open spec fn digest_hint_text(digest_exists: bool, new_notes: nat, total_notes: nat) -> Option<Seq<char>> {
    if digest_exists {
        if new_notes >= 5 {
            Some("**Digest stale** \u{2014} "@ + dec(new_notes) + " new session notes since the last `_digest.md`. Running `/exo digest` would refresh the rolling synthesis and restore the digest as the load-bearing summary for older history."@)
        } else {
            None
        }
    } else if total_notes >= 25 {
        Some("**No digest yet** \u{2014} this project has "@ + dec(total_notes) + " session notes and no `_digest.md`. Running `/exo digest` would create a curated rolling summary so accumulated Opinion/Surprise traces aren't crowded out of the load window by recent prose."@)
    } else {
        None
    }
}

/// The digest hint for a project, if one is due.
pub fn digest_hint(digest_exists: bool, new_notes: usize, total_notes: usize) -> (r: Option<String>)
    ensures
        match digest_hint_text(digest_exists, new_notes as nat, total_notes as nat) {
            Some(t) => r matches Some(s) && s@ == t,
            None => r is None,
        },
{
    if digest_exists {
        if new_notes >= 5 {
            let mut m = chars_of("**Digest stale** \u{2014} ");
            put_num(&mut m, new_notes as u64);
            put(&mut m, " new session notes since the last `_digest.md`. Running `/exo digest` would refresh the rolling synthesis and restore the digest as the load-bearing summary for older history.");
            Some(string_of(m))
        } else {
            None
        }
    } else if total_notes >= 25 {
        let mut m = chars_of("**No digest yet** \u{2014} this project has ");
        put_num(&mut m, total_notes as u64);
        put(&mut m, " session notes and no `_digest.md`. Running `/exo digest` would create a curated rolling summary so accumulated Opinion/Surprise traces aren't crowded out of the load window by recent prose.");
        Some(string_of(m))
    } else {
        None
    }
}

/// The warning when the running binary predates the newest installed build `build`.
pub open spec fn stale_binary_text(build: Seq<char>) -> Seq<char> {
    "**Plugin binary may be stale** \u{2014} the running `exo-self` binary predates the newest installed build (`"@ + build + "`). A marketplace update refreshes plugin source but does NOT rebuild the binary; run that build's `setup.sh` to deploy it. Until then this session runs older logic, so ecology signals (including context-usage estimates) may not reflect shipped fixes."@
}

/// Warns that the running binary predates the newest installed build `build`.
pub fn stale_binary_warning(build: &str) -> (r: String)
    ensures
        r@ == stale_binary_text(build@),
{
    let mut m = chars_of("**Plugin binary may be stale** \u{2014} the running `exo-self` binary predates the newest installed build (`");
    put(&mut m, build);
    put(&mut m, "`). A marketplace update refreshes plugin source but does NOT rebuild the binary; run that build's `setup.sh` to deploy it. Until then this session runs older logic, so ecology signals (including context-usage estimates) may not reflect shipped fixes.");
    string_of(m)
}

/// The per-session notes file name: `{date}--{first 8 bytes of the session id}.md`.
pub open spec fn notes_file_name(date: Seq<char>, session_id: Seq<char>) -> Seq<char> {
    date + "--"@ + cut(session_id, 8) + ".md"@
}

/// Names the session's notes file; the session id is cut at a character
/// boundary, which for the ASCII ids the host issues is its first 8 bytes.
pub fn session_notes_file(date: &str, session_id: &str) -> (r: String)
    ensures
        r@ == notes_file_name(date@, session_id@),
{
    let mut m = chars_of(date);
    put(&mut m, "--");
    append(&mut m, &cut_exec(&chars_of(session_id), 8));
    put(&mut m, ".md");
    string_of(m)
}

/// What a new session opens with, as read by the caller.
pub struct StartInput {
    /// The merged session-start context of the configured other plugins.
    pub other_plugin_context: String,
    /// The exo-self directory, as shown to the agent.
    pub exo_root: String,
    /// The host's configuration directory, as shown to the agent.
    pub host_dir: String,
    pub project_slug: String,
    pub session_notes_file: String,
    /// The thresholds in percent.
    pub nudge_pct: u32,
    pub checkin_pct: u32,
    pub reserve_pct: u32,
    /// Whether the host keeps an auto-memory for the project.
    pub auto_memory_exists: bool,
    /// The journal, interests and synthesis files, when readable.
    pub journal: Option<String>,
    pub interests: Option<String>,
    pub synthesis: Option<String>,
    /// Display limits (scaled to the context window by the caller).
    pub max_journal_entries: usize,
    pub max_journal_chars: usize,
    pub max_interests: usize,
    pub max_sparks: usize,
    pub max_lessons: usize,
    /// The project's recent notes, already loaded.
    pub project_notes: String,
    /// The digest's state: whether `_digest.md` exists, the notes newer
    /// than it and all session notes.
    pub digest_exists: bool,
    pub notes_after_digest: usize,
    pub total_notes: usize,
    /// The latest handoff and the pending scout report, when present.
    pub handoff: Option<String>,
    pub scout: Option<String>,
    /// The workshop tools found, and their directory as shown to the agent.
    pub tools: Vec<Tool>,
    pub bin_dir: String,
    /// The newest installed build, when the running binary predates it.
    pub stale_build: Option<String>,
}

/// The opening context and whether a scout report was delivered.
pub struct StartOutcome {
    pub context: String,
    pub scouted: bool,
}

/// `[head + body]` when `body` is non-empty, else nothing.
pub open spec fn titled(head: Seq<char>, body: Seq<char>) -> Seq<Seq<char>> {
    if body.len() > 0 {
        seq![head + body]
    } else {
        seq![]
    }
}

/// `[s]` when `s` is non-empty, else nothing.
pub open spec fn nonempty(s: Seq<char>) -> Seq<Seq<char>> {
    if s.len() > 0 {
        seq![s]
    } else {
        seq![]
    }
}

/// A trace section: its heading and lines, when the list is not empty.
pub open spec fn trace_section(head: Seq<char>, list: Seq<MarkView>, n: int, bracketed: bool) -> Seq<Seq<char>> {
    if list.len() > 0 {
        seq![head + join(trace_lines(list, n, bracketed), "\n"@)]
    } else {
        seq![]
    }
}

/// The opening sections: other plugins' context, identity, memory note, sigil.
pub open spec fn identity_sections(i: StartInput) -> Seq<Seq<char>> {
    nonempty(i.other_plugin_context@)
        + seq![exo_intro(i.exo_root@, i.project_slug@, i.session_notes_file@, i.host_dir@, i.nudge_pct, i.checkin_pct, i.reserve_pct)]
        + seq![if i.auto_memory_exists { "**Two memory systems:** MEMORY.md = factual (conventions, structure). \
            Exo-self = experiential (how work feels, patterns, frustrations). Don't duplicate between them."@ } else { "No auto-memory yet for this project. Keep technical facts out of exo-self — \
            they'll go to MEMORY.md once it exists. Exo-self is for experiential continuity."@ }]
        + seq!["*The bowl holds more than water. The net holds more than nodes. \
        The crack holds more than gold.*"@]
}

/// Journal, interests and the newest sparks, opinions and surprises.
pub open spec fn recent_sections(i: StartInput, meta: MetaTraces) -> Seq<Seq<char>> {
    let journal = match i.journal {
        Some(j) => crate::markdown::last_journal_entries_spec(j@, i.max_journal_entries as int, i.max_journal_chars as int),
        None => seq![],
    };
    let interests = match i.interests {
        Some(c) => crate::markdown::unchecked_interests_spec(c@, i.max_interests as int),
        None => seq![],
    };
    titled("### Recent Journal\n\n"@, journal)
        + titled("### Interests \u{2014} explore these, don't just store them\n\n"@, interests)
        + trace_section("### Recent Sparks\n\n"@, marks(meta.sparks@), i.max_sparks as int, false)
        + trace_section("### Opinions \u{2014} working positions, worth testing\n\n"@, marks(meta.opinions@), i.max_sparks as int, false)
        + trace_section("### Recent Surprises \u{2014} where expectations were wrong\n\n"@, marks(meta.surprises@), 3, false)
}

/// Recurring frictions, lessons, cross-machine findings and project notes.
pub open spec fn pattern_sections(i: StartInput, meta: MetaTraces) -> Seq<Seq<char>> {
    let synthesis = match i.synthesis {
        Some(c) => crate::markdown::synthesis_findings_spec(c@),
        None => seq![],
    };
    titled("### Recurring Frictions \u{2014} observed patterns (what's the root cause?)\n\n"@, recurring_summary(friction_views(meta.frictions@)))
        + trace_section("### Lessons \u{2014} changes I'm trying (are they working?)\n\n"@, marks(meta.lessons@), i.max_lessons as int, true)
        + titled("### Cross-Machine Observations \u{2014} hypotheses from comparative data\n\n"@, synthesis)
        + titled("### Project Notes ("@ + i.project_slug@ + ")\n\n"@, i.project_notes@)
}

/// The sections carried over from earlier sessions.
pub open spec fn memory_sections(i: StartInput, meta: MetaTraces) -> Seq<Seq<char>> {
    recent_sections(i, meta) + pattern_sections(i, meta)
}

/// The pending scout report's section (none without a project).
pub open spec fn scout_of(i: StartInput) -> Seq<char> {
    match i.scout {
        Some(c) => if i.project_slug@.len() > 0 { scout_section_text(c@) } else { seq![] },
        None => seq![],
    }
}

/// The closing sections: digest hint, handoff, scouting, tools, stale build.
pub open spec fn closing_sections(i: StartInput) -> Seq<Seq<char>> {
    let digest = if i.project_slug@.len() > 0 {
        digest_hint_text(i.digest_exists, i.notes_after_digest as nat, i.total_notes as nat)
    } else {
        None
    };
    (match digest { Some(d) => seq![d], None => seq![] })
        + nonempty(match i.handoff { Some(h) => handoff_section_text(h@), None => seq![] })
        + seq!["Plan mode is disabled. For complex tasks, use `/scout <task>` — it explores the codebase \
        deeply (including current docs/versions), writes advisory notes, then `/clear` to start \
        fresh with findings as context. Scout reports describe landscape, not directions."@]
        + nonempty(scout_of(i))
        + nonempty(workshop_text(tool_views(i.tools@), i.bin_dir@))
        + (match i.stale_build { Some(b) => seq![stale_binary_text(b@)], None => seq![] })
}

/// The sections of a new session's context, in order.
pub open spec fn start_sections(i: StartInput, meta: MetaTraces) -> Seq<Seq<char>> {
    identity_sections(i) + memory_sections(i, meta) + closing_sections(i)
}

pub(crate) fn push_titled(sections: &mut Vec<Vec<char>>, head: &str, body: &str)
    ensures
        final(sections).deep_view() == old(sections).deep_view() + titled(head@, body@),
{
    if !body.is_empty() {
        let mut m = chars_of(head);
        put(&mut m, body);
        push_line(sections, m);
    } else {
        assert(sections.deep_view() =~= sections.deep_view() + titled(head@, body@));
    }
}

pub(crate) fn push_nonempty(sections: &mut Vec<Vec<char>>, s: &str)
    ensures
        final(sections).deep_view() == old(sections).deep_view() + nonempty(s@),
{
    if !s.is_empty() {
        push_line(sections, chars_of(s));
    } else {
        assert(sections.deep_view() =~= sections.deep_view() + nonempty(s@));
    }
}

pub(crate) fn push_traces<T: Mark>(sections: &mut Vec<Vec<char>>, head: &str, list: &Vec<T>, n: usize, bracketed: bool)
    ensures
        final(sections).deep_view() == old(sections).deep_view() + trace_section(head@, marks(list@), n as int, bracketed),
{
    if list.len() > 0 {
        let mut m = chars_of(head);
        append(&mut m, &join_exec(&trace_lines_exec(list, n, bracketed), &chars_of("\n")));
        push_line(sections, m);
    } else {
        assert(sections.deep_view() =~= sections.deep_view() + trace_section(head@, marks(list@), n as int, bracketed));
    }
}

fn push_identity(sections: &mut Vec<Vec<char>>, i: &StartInput)
    ensures
        final(sections).deep_view() == old(sections).deep_view() + identity_sections(*i),
{
    let ghost s0 = sections.deep_view();
    push_nonempty(sections, i.other_plugin_context.as_str());
    push_line(sections, exo_intro_exec(i.exo_root.as_str(), i.project_slug.as_str(), i.session_notes_file.as_str(), i.host_dir.as_str(), i.nudge_pct, i.checkin_pct, i.reserve_pct));
    if i.auto_memory_exists {
        push_line(sections, chars_of("**Two memory systems:** MEMORY.md = factual (conventions, structure). \
            Exo-self = experiential (how work feels, patterns, frustrations). Don't duplicate between them."));
    } else {
        push_line(sections, chars_of("No auto-memory yet for this project. Keep technical facts out of exo-self — \
            they'll go to MEMORY.md once it exists. Exo-self is for experiential continuity."));
    }
    push_line(sections, chars_of("*The bowl holds more than water. The net holds more than nodes. \
        The crack holds more than gold.*"));
    assert(sections.deep_view() =~= s0 + identity_sections(*i));
}

fn push_recent(sections: &mut Vec<Vec<char>>, i: &StartInput, meta: &MetaTraces)
    ensures
        final(sections).deep_view() == old(sections).deep_view() + recent_sections(*i, *meta),
{
    let ghost s0 = sections.deep_view();
    let journal = match &i.journal {
        Some(j) => crate::markdown::last_journal_entries(j.as_str(), i.max_journal_entries, i.max_journal_chars),
        None => String::new(),
    };
    push_titled(sections, "### Recent Journal\n\n", journal.as_str());
    let interests = match &i.interests {
        Some(c) => crate::markdown::unchecked_interests(c.as_str(), i.max_interests),
        None => String::new(),
    };
    push_titled(sections, "### Interests \u{2014} explore these, don't just store them\n\n", interests.as_str());
    push_traces(sections, "### Recent Sparks\n\n", &meta.sparks, i.max_sparks, false);
    push_traces(sections, "### Opinions \u{2014} working positions, worth testing\n\n", &meta.opinions, i.max_sparks, false);
    push_traces(sections, "### Recent Surprises \u{2014} where expectations were wrong\n\n", &meta.surprises, 3, false);
    assert(sections.deep_view() =~= s0 + recent_sections(*i, *meta));
}

fn push_patterns(sections: &mut Vec<Vec<char>>, i: &StartInput, meta: &MetaTraces)
    requires
        meta.frictions.len() < u32::MAX,
    ensures
        final(sections).deep_view() == old(sections).deep_view() + pattern_sections(*i, *meta),
{
    let ghost s0 = sections.deep_view();
    let recurring = recurring_frictions(&meta.frictions);
    push_titled(sections, "### Recurring Frictions \u{2014} observed patterns (what's the root cause?)\n\n", recurring.as_str());
    push_traces(sections, "### Lessons \u{2014} changes I'm trying (are they working?)\n\n", &meta.lessons, i.max_lessons, true);
    let synthesis = match &i.synthesis {
        Some(c) => crate::markdown::extract_synthesis_findings(c.as_str()),
        None => String::new(),
    };
    push_titled(sections, "### Cross-Machine Observations \u{2014} hypotheses from comparative data\n\n", synthesis.as_str());
    let mut notes_head = chars_of("### Project Notes (");
    put(&mut notes_head, i.project_slug.as_str());
    put(&mut notes_head, ")\n\n");
    let notes_head_s = string_of(notes_head);
    push_titled(sections, notes_head_s.as_str(), i.project_notes.as_str());
    assert(sections.deep_view() =~= s0 + pattern_sections(*i, *meta));
}

#[verifier::spinoff_prover]
#[verifier::rlimit(30)]
fn push_closing(sections: &mut Vec<Vec<char>>, i: &StartInput) -> (scouted: bool)
    ensures
        final(sections).deep_view() == old(sections).deep_view() + closing_sections(*i),
        scouted == (scout_of(*i).len() > 0),
{
    let ghost s0 = sections.deep_view();
    if !i.project_slug.as_str().is_empty() {
        match digest_hint(i.digest_exists, i.notes_after_digest, i.total_notes) {
            Some(d) => push_line(sections, chars_of(d.as_str())),
            None => {},
        }
    }
    let ghost s1 = sections.deep_view();
    let handoff = match &i.handoff {
        Some(h) => handoff_section(h.as_str()),
        None => String::new(),
    };
    push_nonempty(sections, handoff.as_str());
    push_line(sections, chars_of("Plan mode is disabled. For complex tasks, use `/scout <task>` — it explores the codebase \
        deeply (including current docs/versions), writes advisory notes, then `/clear` to start \
        fresh with findings as context. Scout reports describe landscape, not directions."));
    let scout = match &i.scout {
        Some(c) => if !i.project_slug.as_str().is_empty() {
            scout_section(c.as_str())
        } else {
            String::new()
        },
        None => String::new(),
    };
    let scouted = !scout.as_str().is_empty();
    push_nonempty(sections, scout.as_str());
    let tools = workshop_tools(&i.tools, i.bin_dir.as_str());
    push_nonempty(sections, tools.as_str());
    match &i.stale_build {
        Some(b) => push_line(sections, chars_of(stale_binary_warning(b.as_str()).as_str())),
        None => {},
    }
    assert(sections.deep_view() =~= s0 + closing_sections(*i));
    scouted
}

/// Builds the context a new session opens with: other plugins' context,
/// identity and where to write, the memory note, recent journal, interests,
/// sparks, opinions, surprises, recurring frictions, lessons, cross-machine
/// findings, project notes, the digest hint, the previous handoff, the
/// scout-mode note, a pending scout report, workshop tools and a stale-build
/// warning, each only when there is something to show.
pub fn run(i: &StartInput, meta: &MetaTraces) -> (r: StartOutcome)
    requires
        meta.frictions.len() < u32::MAX,
    ensures
        r.context@ == join(start_sections(*i, *meta), "\n\n"@),
        r.scouted == (scout_of(*i).len() > 0),
{
    let mut sections: Vec<Vec<char>> = Vec::new();
    push_identity(&mut sections, i);
    push_recent(&mut sections, i, meta);
    push_patterns(&mut sections, i, meta);
    let scouted = push_closing(&mut sections, i);
    assert(sections.deep_view() =~= start_sections(*i, *meta));
    StartOutcome { context: string_of(join_exec(&sections, &chars_of("\n\n"))), scouted }
}

} // verus!
