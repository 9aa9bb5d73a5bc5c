//! SubagentStart: give subagents an identity, the project's briefing and
//! what the session is working on; plan subagents are turned into scouts.
use crate::commands::session_end::MetaTraces;
use crate::hook_io::{hook_output, HookOutput};
use crate::markdown::{
    ellipsize, ellipsize_exec, last_journal_entry, last_journal_entry_spec, law_ellipsize_fits,
};
use crate::meta::{friction_views, marks, FrictionView, Mark, MarkView};
use crate::state::{
    at_least, below_max, bump, bumped, counts, find_name, lemma_find_name, top_k, top_k_exec,
    Counter,
};
use crate::text::{
    append, chars_of, dec, decimal, join, join_exec, lemma_chars_dv, lines, lines_exec,
    starts_with, starts_with_exec, string_of, trim, trim_exec,
};
use vstd::prelude::*;

verus! {

/// The texts of the newest `k` traces of `slug`, newest first.
pub open spec fn recent_for(list: Seq<MarkView>, slug: Seq<char>, k: int) -> Seq<Seq<char>>
    decreases list.len(),
{
    if k <= 0 || list.len() == 0 {
        seq![]
    } else if list.last().1 == slug {
        seq![list.last().0] + recent_for(list.drop_last(), slug, k - 1)
    } else {
        recent_for(list.drop_last(), slug, k)
    }
}

/// The texts of the newest `k` traces of `slug` in `list`, newest first.
fn recent_texts<T: Mark>(list: &Vec<T>, slug: &str, k: usize) -> (r: Vec<Vec<char>>)
    ensures
        r.deep_view() == recent_for(marks(list@), slug@, k as int),
{
    let ghost m = marks(list@);
    let mut out: Vec<Vec<char>> = Vec::new();
    let mut i: usize = list.len();
    let mut left: usize = k;
    assert(m.take(i as int) =~= m);
    assert(out.deep_view() + recent_for(m, slug@, k as int) =~= recent_for(m, slug@, k as int));
    while i > 0 && left > 0
        invariant
            i <= list.len(),
            left <= k,
            m == marks(list@),
            recent_for(m, slug@, k as int) == out.deep_view() + recent_for(m.take(i as int), slug@, left as int),
        decreases i,
    {
        let ghost pre = m.take(i as int);
        assert(pre.drop_last() =~= m.take(i - 1));
        let item = &list[i - 1];
        if *item.project() == slug.to_owned() {
            let t = chars_of(item.text().as_str());
            let ghost before = out.deep_view();
            proof {
                lemma_chars_dv(t);
            }
            out.push(t);
            assert(out.deep_view() =~= before.push(m[i - 1].0));
            assert(out.deep_view() + recent_for(m.take(i - 1), slug@, left - 1) =~= before + (seq![m[i - 1].0] + recent_for(m.take(i - 1), slug@, left - 1)));
            left -= 1;
        }
        i -= 1;
    }
    assert(recent_for(m.take(i as int), slug@, left as int) =~= Seq::<Seq<char>>::empty());
    assert(out.deep_view() + Seq::<Seq<char>>::empty() =~= out.deep_view());
    out
}

/// The friction categories of `slug`'s frictions, counted in first-seen order.
pub open spec fn category_tally(fs: Seq<FrictionView>, slug: Seq<char>) -> Seq<(Seq<char>, int)>
    decreases fs.len(),
{
    if fs.len() == 0 {
        seq![]
    } else if fs.last().2 == slug {
        bumped(category_tally(fs.drop_last(), slug), fs.last().1)
    } else {
        category_tally(fs.drop_last(), slug)
    }
}

/// `s` with each underscore shown as a space.
pub open spec fn spaced(s: Seq<char>) -> Seq<char> {
    s.map_values(|c: char| if c == '_' { ' ' } else { c })
}

/// One recurring category as `label (countx)`.
pub open spec fn friction_item(e: (Seq<char>, int)) -> Seq<char> {
    spaced(e.0) + " ("@ + dec(e.1 as nat) + "x)"@
}

/// Compact friction summary — the (at most four) categories of the project's
/// frictions seen twice or more, most frequent first.
pub open spec fn friction_summary(fs: Seq<FrictionView>, slug: Seq<char>) -> Seq<char> {
    let recurring = at_least(category_tally(fs, slug), 2);
    if recurring.len() == 0 {
        seq![]
    } else {
        "**Friction patterns:** "@ + join(top_k(recurring, 4).map_values(|e: (Seq<char>, int)| friction_item(e)), ", "@)
    }
}

proof fn lemma_tally_bounded(fs: Seq<FrictionView>, slug: Seq<char>)
    ensures
        forall|j: int|
            0 <= j < category_tally(fs, slug).len() ==> #[trigger] category_tally(fs, slug)[j].1
                <= fs.len(),
    decreases fs.len(),
{
    if fs.len() > 0 {
        let prev = category_tally(fs.drop_last(), slug);
        lemma_tally_bounded(fs.drop_last(), slug);
        lemma_find_name(prev, fs.last().1);
        assert forall|j: int| 0 <= j < category_tally(fs, slug).len() implies #[trigger] category_tally(fs, slug)[j].1 <= fs.len() by {
            if fs.last().2 == slug {
                match find_name(prev, fs.last().1) {
                    Some(i) => {
                        if j != i {
                            assert(category_tally(fs, slug)[j] == prev[j]);
                        }
                    },
                    None => {
                        if j < prev.len() {
                            assert(category_tally(fs, slug)[j] == prev[j]);
                        }
                    },
                }
            } else {
                assert(category_tally(fs, slug)[j] == prev[j]);
            }
        }
    }
}

/// `s` with each underscore shown as a space.
pub(crate) fn spaced_exec(s: &str) -> (r: Vec<char>)
    ensures
        r@ == spaced(s@),
{
    let v = chars_of(s);
    let mut r: Vec<char> = Vec::new();
    let mut i: usize = 0;
    while i < v.len()
        invariant
            i <= v.len(),
            v@ == s@,
            r@ == spaced(v@.take(i as int)),
        decreases v.len() - i,
    {
        let c = v[i];
        r.push(if c == '_' { ' ' } else { c });
        assert(spaced(v@.take(i + 1)) =~= spaced(v@.take(i as int)).push(if c == '_' { ' ' } else { c }));
        i += 1;
    }
    assert(v@.take(v.len() as int) =~= v@);
    r
}

/// Compact friction summary — categories with 2+ occurrences, focused on current project
pub fn compact_frictions(frictions: &Vec<crate::meta::Friction>, project_slug: &str) -> (r: String)
    requires
        frictions.len() < u32::MAX,
    ensures
        r@ == friction_summary(friction_views(frictions@), project_slug@),
{
    let ghost fs = friction_views(frictions@);
    let mut tally: Vec<Counter> = Vec::new();
    let mut i: usize = 0;
    while i < frictions.len()
        invariant
            i <= frictions.len() < u32::MAX,
            fs == friction_views(frictions@),
            counts(tally@) == category_tally(fs.take(i as int), project_slug@),
        decreases frictions.len() - i,
    {
        proof {
            assert(fs.take(i + 1).drop_last() =~= fs.take(i as int));
            lemma_tally_bounded(fs.take(i as int), project_slug@);
            assert(below_max(counts(tally@)));
        }
        if frictions[i].project == project_slug.to_owned() {
            bump(&mut tally, frictions[i].category.as_str());
        }
        i += 1;
    }
    assert(fs.take(frictions.len() as int) =~= fs);
    let ghost t = counts(tally@);
    let mut recurring: Vec<Counter> = Vec::new();
    let mut j: usize = 0;
    while j < tally.len()
        invariant
            j <= tally.len(),
            t == counts(tally@),
            counts(recurring@) == at_least(t.take(j as int), 2),
        decreases tally.len() - j,
    {
        proof {
            assert(t.take(j + 1).drop_last() =~= t.take(j as int));
        }
        if tally[j].count >= 2 {
            let ghost before = counts(recurring@);
            let c = Counter { name: tally[j].name.clone(), count: tally[j].count };
            recurring.push(c);
            assert(counts(recurring@) =~= before.push(t[j as int]));
        }
        j += 1;
    }
    assert(t.take(tally.len() as int) =~= t);
    if recurring.len() == 0 {
        return String::new();
    }
    let top = top_k_exec(recurring, 4);
    let ghost tk = counts(top@);
    let mut items: Vec<Vec<char>> = Vec::new();
    let mut k: usize = 0;
    while k < top.len()
        invariant
            k <= top.len(),
            tk == counts(top@),
            items.deep_view() == tk.take(k as int).map_values(|e: (Seq<char>, int)| friction_item(e)),
        decreases top.len() - k,
    {
        let mut item = spaced_exec(top[k].name.as_str());
        append(&mut item, &chars_of(" ("));
        append(&mut item, &decimal(top[k].count as u64));
        append(&mut item, &chars_of("x)"));
        let ghost before = items.deep_view();
        proof {
            lemma_chars_dv(item);
            assert(tk[k as int] == (top@[k as int].name@, top@[k as int].count as int));
            assert(item@ == friction_item(tk[k as int]));
        }
        let ghost iv = item@;
        items.push(item);
        assert(items.deep_view() =~= before.push(iv));
        assert(items.deep_view() =~= tk.take(k + 1).map_values(|e: (Seq<char>, int)| friction_item(e)));
        k += 1;
    }
    assert(tk.take(top.len() as int) =~= tk);
    let mut out = chars_of("**Friction patterns:** ");
    append(&mut out, &join_exec(&items, &chars_of(", ")));
    string_of(out)
}

/// Each text as a bullet, cut to `max` bytes.
pub open spec fn bullets(texts: Seq<Seq<char>>, max: int) -> Seq<Seq<char>> {
    texts.map_values(|t: Seq<char>| "- "@ + ellipsize(t, max))
}

/// The lines of a project briefing.
pub open spec fn briefing_lines(lessons: Seq<Seq<char>>, summary: Seq<char>, aversions: Seq<Seq<char>>) -> Seq<Seq<char>> {
    (if lessons.len() > 0 {
        seq!["**Lessons learned:**"@] + bullets(lessons, 120)
    } else {
        seq![]
    }) + (if summary.len() > 0 {
        seq![summary]
    } else {
        seq![]
    }) + (if aversions.len() > 0 {
        seq!["**Avoid:**"@] + bullets(aversions, 100)
    } else {
        seq![]
    })
}

/// What `build_project_briefing` returns: the project's newest 5 lessons,
/// its recurring friction categories and its newest 3 aversions under a
/// heading, cut to `max_chars` bytes; empty without a project or anything
/// to say.
pub open spec fn project_briefing(
    lessons: Seq<MarkView>,
    frictions: Seq<FrictionView>,
    aversions: Seq<MarkView>,
    slug: Seq<char>,
    max_chars: int,
) -> Seq<char> {
    if slug.len() == 0 {
        seq![]
    } else {
        let ls = briefing_lines(
            recent_for(lessons, slug, 5),
            friction_summary(frictions, slug),
            recent_for(aversions, slug, 3),
        );
        if ls.len() == 0 {
            seq![]
        } else {
            ellipsize("### Project Briefing ("@ + slug + ")\n\n"@ + join(ls, "\n"@), max_chars)
        }
    }
}

fn push_bullets(lines: &mut Vec<Vec<char>>, texts: &Vec<Vec<char>>, max: usize)
    ensures
        final(lines).deep_view() == old(lines).deep_view() + bullets(texts.deep_view(), max as int),
{
    let ghost start = lines.deep_view();
    let ghost tv = texts.deep_view();
    let mut i: usize = 0;
    while i < texts.len()
        invariant
            i <= texts.len(),
            tv == texts.deep_view(),
            lines.deep_view() == start + bullets(tv.take(i as int), max as int),
        decreases texts.len() - i,
    {
        proof {
            lemma_chars_dv(texts@[i as int]);
        }
        let mut b = chars_of("- ");
        append(&mut b, &ellipsize_exec(texts[i].clone(), max));
        let ghost before = lines.deep_view();
        proof {
            lemma_chars_dv(b);
        }
        let ghost bv = b@;
        lines.push(b);
        assert(lines.deep_view() =~= before.push(bv));
        assert(bullets(tv.take(i + 1), max as int) =~= bullets(tv.take(i as int), max as int).push(bv));
        i += 1;
    }
    assert(tv.take(texts.len() as int) =~= tv);
}

/// Build a compact project briefing from meta (lessons, frictions, aversions).
/// This is what makes worker agents effective — actionable project knowledge,
/// not identity philosophy.
pub fn build_project_briefing(meta: &MetaTraces, project_slug: &str, max_chars: usize) -> (r: String)
    requires
        meta.frictions.len() < u32::MAX,
    ensures
        r@ == project_briefing(
            marks(meta.lessons@),
            friction_views(meta.frictions@),
            marks(meta.aversions@),
            project_slug@,
            max_chars as int,
        ),
{
    if project_slug.is_empty() {
        return String::new();
    }
    let mut lines: Vec<Vec<char>> = Vec::new();
    let lessons = recent_texts(&meta.lessons, project_slug, 5);
    let ghost lv = recent_for(marks(meta.lessons@), project_slug@, 5);
    if lessons.len() > 0 {
        let h = chars_of("**Lessons learned:**");
        proof {
            lemma_chars_dv(h);
        }
        lines.push(h);
        assert(lines.deep_view() =~= seq!["**Lessons learned:**"@]);
        push_bullets(&mut lines, &lessons, 120);
    }
    let ghost after_lessons = lines.deep_view();
    assert(after_lessons =~= (if lv.len() > 0 {
        seq!["**Lessons learned:**"@] + bullets(lv, 120)
    } else {
        seq![]
    }));
    let summary = compact_frictions(&meta.frictions, project_slug);
    if !summary.as_str().is_empty() {
        let sv = chars_of(summary.as_str());
        proof {
            lemma_chars_dv(sv);
        }
        lines.push(sv);
    }
    let ghost after_summary = lines.deep_view();
    assert(after_summary =~= after_lessons + (if summary@.len() > 0 {
        seq![summary@]
    } else {
        seq![]
    }));
    let aversions = recent_texts(&meta.aversions, project_slug, 3);
    let ghost av = recent_for(marks(meta.aversions@), project_slug@, 3);
    if aversions.len() > 0 {
        let h = chars_of("**Avoid:**");
        proof {
            lemma_chars_dv(h);
        }
        lines.push(h);
        assert(lines.deep_view() =~= after_summary.push("**Avoid:**"@));
        push_bullets(&mut lines, &aversions, 100);
    }
    assert(lines.deep_view() =~= after_summary + (if av.len() > 0 {
        seq!["**Avoid:**"@] + bullets(av, 100)
    } else {
        seq![]
    }));
    assert(lines.deep_view() =~= briefing_lines(lv, summary@, av));
    if lines.len() == 0 {
        return String::new();
    }
    let mut text = chars_of("### Project Briefing (");
    append(&mut text, &chars_of(project_slug));
    append(&mut text, &chars_of(")\n\n"));
    append(&mut text, &join_exec(&lines, &chars_of("\n")));
    string_of(ellipsize_exec(text, max_chars))
}

fn truncate(s: &str, max: usize) -> (r: Vec<char>)
    ensures
        r@ == ellipsize(s@, max as int),
{
    ellipsize_exec(chars_of(s), max)
}

/// The lines of the `## Working Direction` section, from line `i` on.
pub open spec fn direction_lines(ls: Seq<Seq<char>>, i: int, in_section: bool) -> Seq<Seq<char>>
    decreases ls.len() - i,
{
    if i >= ls.len() || i < 0 {
        seq![]
    } else if starts_with(ls[i], "## Working Direction"@) {
        direction_lines(ls, i + 1, true)
    } else if in_section && starts_with(ls[i], "## "@) {
        seq![]
    } else if in_section {
        seq![ls[i]] + direction_lines(ls, i + 1, true)
    } else {
        direction_lines(ls, i + 1, false)
    }
}

/// What `load_latest_handoff` returns for the latest handoff's contents:
/// its Working Direction section, or the whole handoff when that is empty,
/// trimmed and cut to `max_chars` bytes.
pub open spec fn handoff_context(content: Seq<char>, max_chars: int) -> Seq<char> {
    let direction = trim(join(direction_lines(lines(content), 0, false), "\n"@));
    if direction.len() == 0 {
        ellipsize(trim(content), max_chars)
    } else {
        ellipsize(direction, max_chars)
    }
}

/// Load the most recent handoff's working direction section (`content` is
/// the latest handoff, `None` when it cannot be read).
pub fn load_latest_handoff(content: Option<&str>, max_chars: usize) -> (r: String)
    ensures
        r@ == match content {
            Some(c) => handoff_context(c@, max_chars as int),
            None => Seq::<char>::empty(),
        },
{
    let c = match content {
        Some(c) => c,
        None => {
            return String::new();
        },
    };
    let cv = chars_of(c);
    let ls = lines_exec(&cv);
    let ghost lv = ls.deep_view();
    let mut picked: Vec<Vec<char>> = Vec::new();
    let mut in_section = false;
    let mut done = false;
    let mut i: usize = 0;
    let head = chars_of("## Working Direction");
    let next = chars_of("## ");
    while i < ls.len() && !done
        invariant
            i <= ls.len(),
            lv == ls.deep_view(),
            head@ == "## Working Direction"@,
            next@ == "## "@,
            direction_lines(lv, 0, false) == picked.deep_view() + (if done {
                Seq::<Seq<char>>::empty()
            } else {
                direction_lines(lv, i as int, in_section)
            }),
        decreases ls.len() - i,
    {
        proof {
            lemma_chars_dv(ls@[i as int]);
        }
        let line = &ls[i];
        if starts_with_exec(line, &head) {
            in_section = true;
        } else if in_section && starts_with_exec(line, &next) {
            done = true;
            assert(picked.deep_view() + Seq::<Seq<char>>::empty() =~= picked.deep_view());
        } else if in_section {
            let ghost before = picked.deep_view();
            let lc = line.clone();
            proof {
                lemma_chars_dv(lc);
            }
            picked.push(lc);
            assert(picked.deep_view() =~= before.push(lv[i as int]));
            assert(before + (seq![lv[i as int]] + direction_lines(lv, i + 1, true)) =~= picked.deep_view() + direction_lines(lv, i + 1, true));
        }
        i += 1;
    }
    if !done {
        assert(direction_lines(lv, i as int, in_section) =~= Seq::<Seq<char>>::empty());
        assert(picked.deep_view() + Seq::<Seq<char>>::empty() =~= picked.deep_view());
    }
    let direction = trim_exec(&join_exec(&picked, &chars_of("\n")));
    if direction.len() == 0 {
        string_of(ellipsize_exec(trim_exec(&cv), max_chars))
    } else {
        string_of(ellipsize_exec(direction, max_chars))
    }
}

/// The scouting instructions given to a plan subagent, with the path its
/// report goes to.
pub open spec fn scout_text(scout_path: Seq<char>) -> Seq<char> {
    "## Scout Mode (redirected from plan mode)\n\n\
        You are exploring a codebase to produce a **scout report**, not a prescriptive plan. \
        Your findings will be injected as advisory context in a fresh session.\n\n\
        After your exploration, write your report to: `"@ + scout_path + "`\n\n\
        Use this structure:\n\
        ```markdown\n\
        # Scout Report\n\
        <!-- Generated: YYYY-MM-DD | Task: brief description -->\n\
        \n\
        ## Goal\n\
        What the user wants to accomplish (1-2 sentences).\n\
        \n\
        ## What I Found\n\
        Key observations from exploring the codebase.\n\
        \n\
        ## Suggested Approach\n\
        Your recommended direction — framed as advice, not instructions.\n\
        \n\
        ## Things to Verify\n\
        Mark confidence: **Confirmed** (tool-verified), **Likely** (read but unverified), \
        **Uncertain** (best guess).\n\
        \n\
        ## Watch Out For\n\
        Pitfalls, edge cases, risks.\n\
        ```\n\n\
        Rules:\n\
        - Never prescribe exact code — the executor will read the files themselves\n\
        - Never assert version numbers without checking — use WebSearch to verify\n\
        - Mark your uncertainty explicitly\n\
        - Keep it concise: 1000-2000 chars, max 3000\n\
        - Frame everything as advisory: \"I'd suggest...\" not \"Step 1: do X\"\n\n\
        After writing the report, tell the user:\n\
        > Scout report saved. Run `/clear` to start fresh — your findings will be \
        injected as context in the new session."@
}

/// The identity given to a scout.
pub open spec fn scout_identity() -> Seq<char> {
    "You are part of an ongoing cognitive ecology. \
        Notice what interests you during exploration — form opinions, not just observations. \
        If something surprises you, that's the most valuable signal."@
}

/// The identity given to other subagents.
pub open spec fn worker_identity() -> Seq<char> {
    "You are part of an ongoing cognitive ecology. You have agency: notice what interests you, \
        be honest, form opinions. If this \
        task seems wrongly scoped, say so.\n\n\
        If you notice something beyond the scope of your task, include it under \
        **Observations** — these often have the most value."@
}

/// What a subagent starts with.
pub struct SubagentInput {
    /// The subagent's type (`Plan`, `Explore`, ...).
    pub agent_type: String,
    /// The project slug derived from the hook input.
    pub slug: String,
    /// The journal's contents, when it can be read.
    pub journal: Option<String>,
    /// The latest handoff's contents, when it can be read.
    pub latest_handoff: Option<String>,
    /// Where a scout report goes.
    pub scout_path: String,
}

/// `agent_type` is `plan` in any ASCII case.
pub open spec fn is_plan(agent_type: Seq<char>) -> bool {
    &&& agent_type.len() == 4
    &&& (agent_type[0] == 'p' || agent_type[0] == 'P')
    &&& (agent_type[1] == 'l' || agent_type[1] == 'L')
    &&& (agent_type[2] == 'a' || agent_type[2] == 'A')
    &&& (agent_type[3] == 'n' || agent_type[3] == 'N')
}

/// The sections given to a subagent, before they are joined by blank lines.
pub open spec fn subagent_sections(input: SubagentInput, meta: MetaTraces) -> Seq<Seq<char>> {
    let slug = input.slug@;
    if is_plan(input.agent_type@) {
        let briefing = project_briefing(marks(meta.lessons@), friction_views(meta.frictions@), marks(meta.aversions@), slug, 500);
        let last = match input.journal {
            Some(j) => last_journal_entry_spec(j@, 300),
            None => seq![],
        };
        seq![scout_text(input.scout_path@), scout_identity()]
            + (if briefing.len() > 0 { seq![briefing] } else { seq![] })
            + (if last.len() > 0 { seq!["Recent observation (for context):\n"@ + last] } else { seq![] })
    } else {
        let briefing = project_briefing(marks(meta.lessons@), friction_views(meta.frictions@), marks(meta.aversions@), slug, 800);
        let handoff = match input.latest_handoff {
            Some(h) => handoff_context(h@, 400),
            None => seq![],
        };
        seq![worker_identity()]
            + (if briefing.len() > 0 { seq![briefing] } else { seq![] })
            + (if handoff.len() > 0 { seq!["### Current Session Context\n\n"@ + handoff] } else { seq![] })
    }
}

fn push_text(sections: &mut Vec<Vec<char>>, text: Vec<char>)
    ensures
        final(sections).deep_view() == old(sections).deep_view().push(text@),
{
    let ghost before = sections.deep_view();
    proof {
        lemma_chars_dv(text);
    }
    let ghost tv = text@;
    sections.push(text);
    assert(sections.deep_view() =~= before.push(tv));
}

/// Plan subagents are redirected into scout mode (a report instead of a
/// prescriptive plan, injected into the next fresh session); other
/// subagents get an identity, the project briefing and the session's
/// current working direction.
pub fn run(input: &SubagentInput, meta: &MetaTraces) -> (r: HookOutput)
    requires
        meta.frictions.len() < u32::MAX,
    ensures
        r.hook_specific_output.hook_event_name@ == "SubagentStart"@,
        r.hook_specific_output.additional_context@ == join(subagent_sections(*input, *meta), "\n\n"@),
{
    let t = chars_of(input.agent_type.as_str());
    let plan = t.len() == 4 && (t[0] == 'p' || t[0] == 'P') && (t[1] == 'l' || t[1] == 'L')
        && (t[2] == 'a' || t[2] == 'A') && (t[3] == 'n' || t[3] == 'N');
    let slug = input.slug.as_str();
    let mut sections: Vec<Vec<char>> = Vec::new();
    if plan {
        let mut scout = chars_of("## Scout Mode (redirected from plan mode)\n\n\
        You are exploring a codebase to produce a **scout report**, not a prescriptive plan. \
        Your findings will be injected as advisory context in a fresh session.\n\n\
        After your exploration, write your report to: `");
        append(&mut scout, &chars_of(input.scout_path.as_str()));
        append(&mut scout, &chars_of("`\n\n\
        Use this structure:\n\
        ```markdown\n\
        # Scout Report\n\
        <!-- Generated: YYYY-MM-DD | Task: brief description -->\n\
        \n\
        ## Goal\n\
        What the user wants to accomplish (1-2 sentences).\n\
        \n\
        ## What I Found\n\
        Key observations from exploring the codebase.\n\
        \n\
        ## Suggested Approach\n\
        Your recommended direction — framed as advice, not instructions.\n\
        \n\
        ## Things to Verify\n\
        Mark confidence: **Confirmed** (tool-verified), **Likely** (read but unverified), \
        **Uncertain** (best guess).\n\
        \n\
        ## Watch Out For\n\
        Pitfalls, edge cases, risks.\n\
        ```\n\n\
        Rules:\n\
        - Never prescribe exact code — the executor will read the files themselves\n\
        - Never assert version numbers without checking — use WebSearch to verify\n\
        - Mark your uncertainty explicitly\n\
        - Keep it concise: 1000-2000 chars, max 3000\n\
        - Frame everything as advisory: \"I'd suggest...\" not \"Step 1: do X\"\n\n\
        After writing the report, tell the user:\n\
        > Scout report saved. Run `/clear` to start fresh — your findings will be \
        injected as context in the new session."));
        push_text(&mut sections, scout);
        push_text(&mut sections, chars_of("You are part of an ongoing cognitive ecology. \
        Notice what interests you during exploration — form opinions, not just observations. \
        If something surprises you, that's the most valuable signal."));
        let briefing = build_project_briefing(meta, slug, 500);
        if !briefing.as_str().is_empty() {
            push_text(&mut sections, chars_of(briefing.as_str()));
        }
        let last = match &input.journal {
            Some(j) => last_journal_entry(j.as_str(), 300),
            None => String::new(),
        };
        if !last.as_str().is_empty() {
            let mut m = chars_of("Recent observation (for context):\n");
            append(&mut m, &chars_of(last.as_str()));
            push_text(&mut sections, m);
        }
    } else {
        push_text(&mut sections, chars_of("You are part of an ongoing cognitive ecology. You have agency: notice what interests you, \
        be honest, form opinions. If this \
        task seems wrongly scoped, say so.\n\n\
        If you notice something beyond the scope of your task, include it under \
        **Observations** — these often have the most value."));
        let briefing = build_project_briefing(meta, slug, 800);
        if !briefing.as_str().is_empty() {
            push_text(&mut sections, chars_of(briefing.as_str()));
        }
        let handoff = match &input.latest_handoff {
            Some(h) => load_latest_handoff(Some(h.as_str()), 400),
            None => String::new(),
        };
        if !handoff.as_str().is_empty() {
            let mut m = chars_of("### Current Session Context\n\n");
            append(&mut m, &chars_of(handoff.as_str()));
            push_text(&mut sections, m);
        }
    }
    assert(sections.deep_view() =~= subagent_sections(*input, *meta));
    let context = string_of(join_exec(&sections, &chars_of("\n\n")));
    hook_output("SubagentStart", context.as_str())
}

/// A project briefing never exceeds its budget of `max_chars` bytes (once
/// the budget leaves room for the `"..."` of a cut).
pub proof fn law_briefing_fits(
    lessons: Seq<MarkView>,
    frictions: Seq<FrictionView>,
    aversions: Seq<MarkView>,
    slug: Seq<char>,
    max_chars: int,
)
    requires
        max_chars >= 3,
    ensures
        crate::text::byte_len(project_briefing(lessons, frictions, aversions, slug, max_chars)) <= max_chars,
{
    if slug.len() > 0 {
        let ls = briefing_lines(
            recent_for(lessons, slug, 5),
            friction_summary(frictions, slug),
            recent_for(aversions, slug, 3),
        );
        if ls.len() > 0 {
            law_ellipsize_fits("### Project Briefing ("@ + slug + ")\n\n"@ + join(ls, "\n"@), max_chars);
        }
    }
}

/// The plain subagent briefing: who it is, and the latest journal entry when
/// there is one.
pub open spec fn plain_briefing_text(last_entry: Seq<char>) -> Seq<char> {
    "You are part of an exo-self system that maintains persistent identity across sessions. You have the same agency as the main agent: notice what interests you, be honest, form opinions. If you observe something worth remembering, mention it in your response so the main agent can save it."@
        + if last_entry.len() > 0 {
        "\n\nLatest journal entry:\n"@ + last_entry
    } else {
        seq![]
    }
}

/// The plain subagent briefing.
pub fn plain_briefing(last_entry: &str) -> (r: String)
    ensures
        r@ == plain_briefing_text(last_entry@),
{
    let mut m = crate::text::chars_of(
        "You are part of an exo-self system that maintains persistent identity across sessions. You have the same agency as the main agent: notice what interests you, be honest, form opinions. If you observe something worth remembering, mention it in your response so the main agent can save it.",
    );
    let ghost head = m@;
    if !last_entry.is_empty() {
        crate::text::append(&mut m, &crate::text::chars_of("\n\nLatest journal entry:\n"));
        crate::text::append(&mut m, &crate::text::chars_of(last_entry));
    } else {
        assert(m@ =~= head + Seq::<char>::empty());
    }
    crate::text::string_of(m)
}

} // verus!
