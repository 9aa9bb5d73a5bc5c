//! Parsing of journal, interests and session-note prose.
use crate::text::{
    lemma_byte_len_concat, lemma_fit_chars, utf8_width,
    append, byte_len, chars_of, concat, contains, find_from, find_from_exec, fit_chars,
    fit_chars_exec, fits_exec, has, join, join_exec, lemma_chars_dv, lemma_find_from, lines,
    lines_exec, lower, lowercase_of, occurs_at, occurs_at_exec, slice_of, split, split_exec,
    starts_with, starts_with_exec, string_of, to_lowercase, trim, trim_exec, trim_start,
    trim_start_exec,
};
use vstd::prelude::*;

verus! {

// ---------------------------------------------------------------------------
// Specifications
// ---------------------------------------------------------------------------

/// `a - b`, floored at zero.
pub open spec fn sat_sub(a: int, b: int) -> int {
    if a > b {
        a - b
    } else {
        0
    }
}

/// Cuts `s` to fit `max` bytes: unchanged when it fits, otherwise the longest
/// prefix that fits in `max - 3` bytes followed by `"..."`.
pub open spec fn ellipsize(s: Seq<char>, max: int) -> Seq<char> {
    if byte_len(s) <= max {
        s
    } else {
        s.take(fit_chars(s, sat_sub(max, 3)) as int) + "..."@
    }
}

/// The last `max_entries` `## ` sections of a journal, trimmed (before the
/// size cap).
pub open spec fn journal_tail(content: Seq<char>, max_entries: int) -> Seq<char> {
    let entries = split(content, "\n## "@);
    let start = sat_sub(entries.len() as int, max_entries);
    let body = join(entries.skip(start), "\n## "@);
    if start > 0 && start < entries.len() {
        trim("\n## "@ + body)
    } else {
        trim(body)
    }
}

/// What `last_journal_entries` returns.
pub open spec fn last_journal_entries_spec(
    content: Seq<char>,
    max_entries: int,
    max_chars: int,
) -> Seq<char> {
    ellipsize(journal_tail(content, max_entries), max_chars)
}

/// What `last_journal_entry` returns.
pub open spec fn last_journal_entry_spec(content: Seq<char>, max_chars: int) -> Seq<char> {
    let sections = split(content, "\n## "@);
    if sections.len() > 1 {
        ellipsize("## "@ + trim(sections.last()), max_chars)
    } else {
        seq![]
    }
}

/// The trimmed lines that are unchecked interest items (`- [ ]`).
pub open spec fn unchecked_items(ls: Seq<Seq<char>>) -> Seq<Seq<char>>
    decreases ls.len(),
{
    if ls.len() == 0 {
        seq![]
    } else {
        let r = unchecked_items(ls.drop_last());
        if starts_with(trim(ls.last()), "- [ ]"@) {
            r.push(trim(ls.last()))
        } else {
            r
        }
    }
}

/// At most `n` leading elements.
pub open spec fn take_at_most<A>(s: Seq<A>, n: int) -> Seq<A> {
    if s.len() > n {
        s.take(n)
    } else {
        s
    }
}

/// What `unchecked_interests` returns.
pub open spec fn unchecked_interests_spec(content: Seq<char>, max_items: int) -> Seq<char> {
    join(take_at_most(unchecked_items(lines(content)), max_items), "\n"@)
}

/// Drops one leading separator (`:`, em dash or `-`) and the blanks after it.
pub open spec fn strip_separator(r: Seq<char>) -> Seq<char> {
    if r.len() > 0 && (r[0] == ':' || r[0] == '\u{2014}' || r[0] == '-') {
        trim_start(r.drop_first())
    } else {
        r
    }
}

/// Index (from `j` on) where a marker entry stops: the first position after
/// the start holding `"\n**"` or `"\n\n"`, else the end.
pub open spec fn entry_end(rest: Seq<char>, j: int) -> int
    decreases rest.len() - j,
{
    if j >= rest.len() || j < 0 {
        rest.len() as int
    } else if occurs_at(rest, "\n**"@, j) || occurs_at(rest, "\n\n"@, j) {
        j
    } else {
        entry_end(rest, j + 1)
    }
}

/// The entry text after a marker ending at character `pos`, if non-empty.
pub open spec fn after_marker(text: Seq<char>, pos: int) -> Option<Seq<char>> {
    if pos >= text.len() || pos < 0 {
        None
    } else {
        let rest = strip_separator(trim_start(text.skip(pos)));
        let entry = trim(rest.take(entry_end(rest, 1)));
        if entry.len() == 0 {
            None
        } else {
            Some(entry)
        }
    }
}

/// Adds an entry unless it is absent or already present.
pub open spec fn add_entry(acc: Seq<Seq<char>>, e: Option<Seq<char>>) -> Seq<Seq<char>> {
    match e {
        Some(x) => if acc.contains(x) {
            acc
        } else {
            acc.push(x)
        },
        None => acc,
    }
}

/// Scans the non-overlapping occurrences of marker `m` from `i` on, left to
/// right, adding the entry after each.
pub open spec fn scan_marker(text: Seq<char>, m: Seq<char>, i: int, acc: Seq<Seq<char>>) -> Seq<
    Seq<char>,
>
    decreases text.len() + 1 - i,
{
    if m.len() == 0 || i < 0 || i >= text.len() {
        acc
    } else {
        match find_from(text, m, i) {
            None => acc,
            Some(p) => if p < i || p + m.len() > text.len() {
                acc
            } else {
                scan_marker(
                    text,
                    m,
                    p + m.len(),
                    add_entry(acc, after_marker(text, p + m.len())),
                )
            },
        }
    }
}

/// Entries introduced by either bold marker (anywhere) or by the plain
/// marker at the start of a line, in discovery order, without duplicates.
pub open spec fn extract_entries_spec(
    text: Seq<char>,
    bold1: Seq<char>,
    bold2: Seq<char>,
    plain: Seq<char>,
) -> Seq<Seq<char>> {
    let a1 = scan_marker(text, bold1, 0, seq![]);
    let a2 = scan_marker(text, bold2, 0, a1);
    let a3 = if starts_with(text, plain) {
        add_entry(a2, after_marker(text, plain.len() as int))
    } else {
        a2
    };
    scan_marker(text, seq!['\n'] + plain, 0, a3)
}

/// Change entries that only say there is nothing to change.
pub open spec fn is_empty_change(s: Seq<char>) -> bool {
    let l = lowercase_of(s);
    ||| starts_with(l, "nothing"@)
    ||| starts_with(l, "none"@)
    ||| contains(l, "nothing actionable"@)
    ||| contains(l, "nothing to change"@)
    ||| contains(l, "nothing to note"@)
    ||| contains(l, "nothing behavioral"@)
}

/// The entries that are real changes.
pub open spec fn real_changes(es: Seq<Seq<char>>) -> Seq<Seq<char>>
    decreases es.len(),
{
    if es.len() == 0 {
        seq![]
    } else {
        let r = real_changes(es.drop_last());
        if is_empty_change(es.last()) {
            r
        } else {
            r.push(es.last())
        }
    }
}

/// The friction category for a lower-cased description.
pub open spec fn friction_category(l: Seq<char>) -> Seq<char> {
    if contains(l, "pre-commit"@) || contains(l, "precommit"@) || contains(l, "hook fail"@) {
        "pre_commit"@
    } else if contains(l, "type"@) && (contains(l, "migrat"@) || contains(l, "mismatch"@)
        || contains(l, "error"@)) {
        "type_system"@
    } else if contains(l, "test"@) && (contains(l, "fail"@) || contains(l, "flak"@) || contains(
        l,
        "iteration"@,
    )) {
        "test_iteration"@
    } else if contains(l, "deploy"@) || contains(l, "infra"@) || contains(l, "cdk"@) || contains(
        l,
        "cloudformation"@,
    ) || contains(l, "terraform"@) {
        "infrastructure"@
    } else if contains(l, "schema"@) || contains(l, "migration"@) || contains(l, "codegen"@) {
        "schema_change"@
    } else if contains(l, "unfamiliar"@) || contains(l, "new codebase"@) || contains(l, "ramp"@) {
        "unfamiliar_codebase"@
    } else if contains(l, "tool"@) && (contains(l, "fail"@) || contains(l, "error"@) || contains(
        l,
        "broken"@,
    )) {
        "tool_failure"@
    } else if contains(l, "permission"@) || contains(l, "sandbox"@) || contains(l, "denied"@) {
        "permissions"@
    } else if contains(l, "compil"@) || (contains(l, "build"@) && contains(l, "fail"@)) {
        "build_failure"@
    } else {
        "general"@
    }
}

/// Index of the first occurrence of `p` in `s`, or `dflt`.
pub open spec fn find_or(s: Seq<char>, p: Seq<char>, dflt: int) -> int {
    match find_from(s, p, 0) {
        Some(i) => i,
        None => dflt,
    }
}

/// What `extract_synthesis_findings` returns.
pub open spec fn synthesis_findings_spec(content: Seq<char>) -> Seq<char> {
    let marker = "## Key Findings\n"@;
    match find_from(content, marker, 0) {
        None => seq![],
        Some(st) => {
            let after = content.skip(st + marker.len());
            let findings = trim(after.take(find_or(after, "\n## "@, after.len() as int)));
            if findings.len() == 0 {
                seq![]
            } else {
                let header = match find_from(content, "Machines: "@, 0) {
                    None => seq![],
                    Some(pos) => {
                        let tail = content.skip(pos);
                        tail.take(find_or(tail, "\n"@, tail.len() as int)) + "\n\n"@
                    },
                };
                ellipsize(header + findings, 800)
            }
        },
    }
}

/// Number of leading line feeds of `s`.
pub open spec fn lead_newlines(s: Seq<char>) -> nat
    decreases s.len(),
{
    if s.len() > 0 && s[0] == '\n' {
        1 + lead_newlines(s.skip(1))
    } else {
        0
    }
}

/// YAML frontmatter and prose of a markdown file: a file starting with
/// `---` has its frontmatter up to the next `\n---` line (empty when that
/// line follows at once); the prose follows that line with its leading line
/// feeds dropped. Without frontmatter the whole file is prose.
pub open spec fn frontmatter_split(content: Seq<char>) -> (Option<Seq<char>>, Seq<char>) {
    if !starts_with(content, "---"@) {
        (None, content)
    } else {
        match find_from(content, "\n---"@, 3) {
            Some(j) => {
                let rest = content.skip(j + 4);
                let block = if j > 3 {
                    content.subrange(4, j)
                } else {
                    seq![]
                };
                (Some(block), rest.skip(lead_newlines(rest) as int))
            },
            None => (None, content),
        }
    }
}

/// The prose of a markdown file (see `frontmatter_split`).
pub open spec fn prose_of(content: Seq<char>) -> Seq<char> {
    frontmatter_split(content).1
}

/// Splitting succeeds without cutting a character: when there is a closed
/// frontmatter block, the character after the opening `---` is one byte.
pub open spec fn frontmatter_ok(content: Seq<char>) -> bool {
    starts_with(content, "---"@) && find_from(content, "\n---"@, 3) is Some ==> utf8_width(content[3]) == 1
}

/// A cut text never exceeds its budget of `max` bytes, once the budget
/// leaves room for the `"..."` that marks the cut.
pub proof fn law_ellipsize_fits(s: Seq<char>, max: int)
    requires
        max >= 3,
    ensures
        byte_len(ellipsize(s, max)) <= max,
{
    if byte_len(s) > max {
        let k = fit_chars(s, sat_sub(max, 3));
        lemma_fit_chars(s, sat_sub(max, 3));
        lemma_byte_len_concat(s.take(k as int), "..."@);
        reveal_strlit("...");
        assert("..."@ =~= seq!['.', '.', '.']);
        assert(byte_len(seq!['.', '.', '.']) == 3) by {
            reveal_with_fuel(byte_len, 4);
            assert(seq!['.', '.', '.'].drop_last() =~= seq!['.', '.']);
            assert(seq!['.', '.'].drop_last() =~= seq!['.']);
            assert(seq!['.'].drop_last() =~= Seq::<char>::empty());
        }
    }
}

/// The text names a commit hook.
pub open spec fn names_commit_hook(l: Seq<char>) -> bool {
    contains(l, "hook fail"@) || contains(l, "precommit"@) || contains(l, "pre-commit"@)
}

/// The text names a typing problem.
pub open spec fn names_type_problem(l: Seq<char>) -> bool {
    (contains(l, "error"@) || contains(l, "mismatch"@) || contains(l, "migrat"@)) && contains(l, "type"@)
}

/// The text names failing, flaky or iterated tests.
pub open spec fn names_test_trouble(l: Seq<char>) -> bool {
    (contains(l, "iteration"@) || contains(l, "flak"@) || contains(l, "fail"@)) && contains(l, "test"@)
}

/// The text names deployment or infrastructure.
pub open spec fn names_infrastructure(l: Seq<char>) -> bool {
    contains(l, "terraform"@) || contains(l, "cloudformation"@) || contains(l, "cdk"@) || contains(l, "infra"@)
        || contains(l, "deploy"@)
}

/// The text names schemas, migrations or generated code.
pub open spec fn names_schema_change(l: Seq<char>) -> bool {
    contains(l, "codegen"@) || contains(l, "migration"@) || contains(l, "schema"@)
}

/// The text names an unfamiliar codebase.
pub open spec fn names_unfamiliar(l: Seq<char>) -> bool {
    contains(l, "ramp"@) || contains(l, "new codebase"@) || contains(l, "unfamiliar"@)
}

/// The text names a failing, erroring or broken tool.
pub open spec fn names_tool_trouble(l: Seq<char>) -> bool {
    (contains(l, "broken"@) || contains(l, "error"@) || contains(l, "fail"@)) && contains(l, "tool"@)
}

/// The text names a permission problem.
pub open spec fn names_permission(l: Seq<char>) -> bool {
    contains(l, "denied"@) || contains(l, "sandbox"@) || contains(l, "permission"@)
}

/// The text names compiling or a failing build.
pub open spec fn names_build_trouble(l: Seq<char>) -> bool {
    (contains(l, "fail"@) && contains(l, "build"@)) || contains(l, "compil"@)
}

/// How a friction is categorised by its (lower-cased) words, the first
/// matching category winning in this order: a commit hook (`pre_commit`),
/// a typing problem (`type_system`), failing, flaky or iterated tests
/// (`test_iteration`), deployment (`infrastructure`), schemas
/// (`schema_change`), an unfamiliar codebase, a broken tool, permissions,
/// a failing build; a text naming none of these is `general`.
pub proof fn law_friction_categories(l: Seq<char>)
    ensures
        names_commit_hook(l) ==> friction_category(l) == "pre_commit"@,
        !names_commit_hook(l) && names_type_problem(l) ==> friction_category(l) == "type_system"@,
        !names_commit_hook(l) && !names_type_problem(l) && names_test_trouble(l) ==> friction_category(l)
            == "test_iteration"@,
        !names_commit_hook(l) && !names_type_problem(l) && !names_test_trouble(l) && names_infrastructure(l)
            ==> friction_category(l) == "infrastructure"@,
        !names_commit_hook(l) && !names_type_problem(l) && !names_test_trouble(l) && !names_infrastructure(l)
            && names_schema_change(l) ==> friction_category(l) == "schema_change"@,
        !names_commit_hook(l) && !names_type_problem(l) && !names_test_trouble(l) && !names_infrastructure(l)
            && !names_schema_change(l) && names_unfamiliar(l) ==> friction_category(l) == "unfamiliar_codebase"@,
        !names_commit_hook(l) && !names_type_problem(l) && !names_test_trouble(l) && !names_infrastructure(l)
            && !names_schema_change(l) && !names_unfamiliar(l) && names_tool_trouble(l) ==> friction_category(l)
            == "tool_failure"@,
        !names_commit_hook(l) && !names_type_problem(l) && !names_test_trouble(l) && !names_infrastructure(l)
            && !names_schema_change(l) && !names_unfamiliar(l) && !names_tool_trouble(l) && names_permission(l)
            ==> friction_category(l) == "permissions"@,
        !names_commit_hook(l) && !names_type_problem(l) && !names_test_trouble(l) && !names_infrastructure(l)
            && !names_schema_change(l) && !names_unfamiliar(l) && !names_tool_trouble(l) && !names_permission(l)
            && names_build_trouble(l) ==> friction_category(l) == "build_failure"@,
        !names_commit_hook(l) && !names_type_problem(l) && !names_test_trouble(l) && !names_infrastructure(l)
            && !names_schema_change(l) && !names_unfamiliar(l) && !names_tool_trouble(l) && !names_permission(l)
            && !names_build_trouble(l) ==> friction_category(l) == "general"@,
{
}

// ---------------------------------------------------------------------------
// Executable code
// ---------------------------------------------------------------------------

/// Parse YAML frontmatter from a markdown file: the frontmatter text, when
/// there is some, and the prose.
pub fn split_frontmatter(content: &str) -> (r: (Option<String>, String))
    requires
        frontmatter_ok(content@),
    ensures
        frontmatter_split(content@) == (match r.0 {
            Some(y) => Some(y@),
            None => None,
        }, r.1@),
{
    let c = chars_of(content);
    proof {
        reveal_strlit("---");
        reveal_strlit("\n---");
    }
    if !starts_with_exec(&c, &chars_of("---")) {
        return (None, content.to_owned());
    }
    let marker = chars_of("\n---");
    match find_from_exec(&c, &marker, 3) {
        Some(j) => {
            proof {
                lemma_find_from(c@, marker@, 3);
            }
            let yaml = if j > 3 {
                slice_of(&c, 4, j)
            } else {
                Vec::new()
            };
            let mut k = j + 4;
            while k < c.len() && c[k] == '\n'
                invariant
                    j + 4 <= k <= c.len(),
                    lead_newlines(c@.skip(j + 4)) == (k - (j + 4)) + lead_newlines(c@.skip(k as int)),
                decreases c.len() - k,
            {
                assert(c@.skip(k as int).skip(1) =~= c@.skip(k + 1));
                k += 1;
            }
            let prose = slice_of(&c, k, c.len());
            assert(prose@ =~= c@.skip(j + 4).skip(lead_newlines(c@.skip(j + 4)) as int));
            (Some(string_of(yaml)), string_of(prose))
        },
        None => (None, content.to_owned()),
    }
}

/// Find the largest byte index <= max that is a valid UTF-8 char boundary.
pub fn safe_truncate(s: &str, max: usize) -> (r: usize)
    ensures
        r == byte_len(s@.take(fit_chars(s@, max as int) as int)),
        r <= max,
{
    let v = chars_of(s);
    let (_, bytes) = fit_chars_exec(&v, max);
    bytes
}

/// `ellipsize` on a character vector.
pub fn ellipsize_exec(v: Vec<char>, max: usize) -> (r: Vec<char>)
    ensures
        r@ == ellipsize(v@, max as int),
{
    if fits_exec(&v, max) {
        v
    } else {
        let budget = if max >= 3 {
            max - 3
        } else {
            0
        };
        let (k, _) = fit_chars_exec(&v, budget);
        let mut r = slice_of(&v, 0, k);
        append(&mut r, &chars_of("..."));
        r
    }
}

/// Split journal content into entries by ## headings, return last N entries
pub fn last_journal_entries(content: &str, max_entries: usize, max_chars: usize) -> (r: String)
    ensures
        r@ == last_journal_entries_spec(content@, max_entries as int, max_chars as int),
{
    let c = chars_of(content);
    let sep = chars_of("\n## ");
    proof {
        reveal_strlit("\n## ");
    }
    let entries = split_exec(&c, &sep);
    let count = entries.len();
    let start = if count > max_entries {
        count - max_entries
    } else {
        0
    };
    let tail = slice_entries(&entries, start);
    let body = join_exec(&tail, &sep);
    let raw = if start > 0 && start < count {
        concat(&sep, &body)
    } else {
        body
    };
    let t = trim_exec(&raw);
    string_of(ellipsize_exec(t, max_chars))
}

/// Owned copy of `v[start..]`.
pub fn slice_entries(v: &Vec<Vec<char>>, start: usize) -> (r: Vec<Vec<char>>)
    requires
        start <= v.len(),
    ensures
        r.deep_view() == v.deep_view().skip(start as int),
{
    let mut r: Vec<Vec<char>> = Vec::new();
    let mut i = start;
    while i < v.len()
        invariant
            start <= i <= v.len(),
            r.deep_view() == v.deep_view().subrange(start as int, i as int),
        decreases v.len() - i,
    {
        let ghost before = r.deep_view();
        let e = v[i].clone();
        proof {
            lemma_chars_dv(e);
            lemma_chars_dv(v@[i as int]);
        }
        r.push(e);
        assert(r.deep_view() =~= before.push(v.deep_view()[i as int]));
        assert(r.deep_view() =~= v.deep_view().subrange(start as int, i + 1));
        i += 1;
    }
    assert(v.deep_view().subrange(start as int, v.len() as int) =~= v.deep_view().skip(
        start as int,
    ));
    r
}

/// Get the last ## section from journal content (for subagent/teammate injection)
pub fn last_journal_entry(content: &str, max_chars: usize) -> (r: String)
    ensures
        r@ == last_journal_entry_spec(content@, max_chars as int),
{
    let c = chars_of(content);
    let sep = chars_of("\n## ");
    proof {
        reveal_strlit("\n## ");
    }
    let sections = split_exec(&c, &sep);
    if sections.len() > 1 {
        let last = trim_exec(&sections[sections.len() - 1]);
        proof {
            lemma_chars_dv(sections@[sections.len() - 1]);
        }
        let entry = concat(&chars_of("## "), &last);
        string_of(ellipsize_exec(entry, max_chars))
    } else {
        string_of(Vec::new())
    }
}

/// Filter interests to unchecked items only (lines starting with "- [ ]")
pub fn unchecked_interests(content: &str, max_items: usize) -> (r: String)
    ensures
        r@ == unchecked_interests_spec(content@, max_items as int),
{
    let c = chars_of(content);
    let ls = lines_exec(&c);
    let marker = chars_of("- [ ]");
    let mut items: Vec<Vec<char>> = Vec::new();
    let mut i: usize = 0;
    proof {
        assert(ls.deep_view().take(0) =~= Seq::<Seq<char>>::empty());
        assert(items.deep_view() =~= Seq::<Seq<char>>::empty());
    }
    while i < ls.len()
        invariant
            i <= ls.len(),
            marker@ == "- [ ]"@,
            items.deep_view() == unchecked_items(ls.deep_view().take(i as int)),
        decreases ls.len() - i,
    {
        let ghost before = items.deep_view();
        let t = trim_exec(&ls[i]);
        proof {
            lemma_chars_dv(ls@[i as int]);
            assert(ls.deep_view().take(i + 1).drop_last() =~= ls.deep_view().take(i as int));
            assert(ls.deep_view().take(i + 1).last() == ls.deep_view()[i as int]);
        }
        if starts_with_exec(&t, &marker) {
            proof {
                lemma_chars_dv(t);
            }
            items.push(t);
            assert(items.deep_view() =~= before.push(t@));
        }
        i += 1;
    }
    proof {
        assert(ls.deep_view().take(ls.len() as int) =~= ls.deep_view());
    }
    let kept = if items.len() > max_items {
        let mut k: Vec<Vec<char>> = Vec::new();
        let mut j: usize = 0;
        while j < max_items
            invariant
                j <= max_items < items.len(),
                k.deep_view() == items.deep_view().take(j as int),
            decreases max_items - j,
        {
            let ghost before = k.deep_view();
            let e = items[j].clone();
            proof {
                lemma_chars_dv(e);
                lemma_chars_dv(items@[j as int]);
            }
            k.push(e);
            assert(k.deep_view() =~= before.push(items.deep_view()[j as int]));
            assert(k.deep_view() =~= items.deep_view().take(j + 1));
            j += 1;
        }
        k
    } else {
        items
    };
    string_of(join_exec(&kept, &chars_of("\n")))
}

/// Drops a leading separator and the blanks after it.
fn strip_separator_exec(r: Vec<char>) -> (o: Vec<char>)
    ensures
        o@ == strip_separator(r@),
{
    if r.len() > 0 && (r[0] == ':' || r[0] == '\u{2014}' || r[0] == '-') {
        let d = slice_of(&r, 1, r.len());
        proof {
            assert(d@ =~= r@.drop_first());
        }
        trim_start_exec(&d)
    } else {
        r
    }
}

/// Where a marker entry ends.
fn entry_end_exec(rest: &Vec<char>) -> (e: usize)
    ensures
        e == entry_end(rest@, 1),
        e <= rest.len(),
{
    let p1 = chars_of("\n**");
    let p2 = chars_of("\n\n");
    let mut j: usize = 1;
    while j < rest.len()
        invariant
            1 <= j,
            p1@ == "\n**"@,
            p2@ == "\n\n"@,
            entry_end(rest@, 1) == entry_end(rest@, j as int),
        decreases rest.len() - j,
    {
        if occurs_at_exec(rest, &p1, j) || occurs_at_exec(rest, &p2, j) {
            return j;
        }
        j += 1;
    }
    rest.len()
}

/// Extract content after a marker position, handling separators (: — -) and boundaries.
/// Returns None if content is empty.
fn extract_after_marker(text: &Vec<char>, pos: usize) -> (r: Option<Vec<char>>)
    ensures
        match r {
            Some(e) => after_marker(text@, pos as int) == Some(e@),
            None => after_marker(text@, pos as int) is None,
        },
{
    if pos >= text.len() {
        return None;
    }
    let tail = slice_of(text, pos, text.len());
    proof {
        assert(tail@ =~= text@.skip(pos as int));
    }
    let rest = strip_separator_exec(trim_start_exec(&tail));
    let end = entry_end_exec(&rest);
    let head = slice_of(&rest, 0, end);
    proof {
        assert(head@ =~= rest@.take(end as int));
    }
    let entry = trim_exec(&head);
    if entry.len() == 0 {
        None
    } else {
        Some(entry)
    }
}

/// Whether two character vectors are equal.
pub fn chars_eq(a: &Vec<char>, b: &Vec<char>) -> (r: bool)
    ensures
        r == (a@ == b@),
{
    if a.len() != b.len() {
        return false;
    }
    let mut i: usize = 0;
    while i < a.len()
        invariant
            i <= a.len() == b.len(),
            forall|k: int| 0 <= k < i ==> a@[k] == b@[k],
        decreases a.len() - i,
    {
        if a[i] != b[i] {
            return false;
        }
        i += 1;
    }
    assert(a@ =~= b@);
    true
}

/// Whether `acc` holds `x`.
pub fn holds_entry(acc: &Vec<Vec<char>>, x: &Vec<char>) -> (r: bool)
    ensures
        r == acc.deep_view().contains(x@),
{
    let mut i: usize = 0;
    while i < acc.len()
        invariant
            i <= acc.len(),
            forall|k: int| 0 <= k < i ==> acc.deep_view()[k] != x@,
        decreases acc.len() - i,
    {
        proof {
            lemma_chars_dv(acc@[i as int]);
        }
        if chars_eq(&acc[i], x) {
            assert(acc.deep_view()[i as int] == x@);
            return true;
        }
        i += 1;
    }
    false
}

/// `add_entry` in place.
fn add_entry_exec(acc: &mut Vec<Vec<char>>, e: Option<Vec<char>>)
    ensures
        final(acc).deep_view() == add_entry(
            old(acc).deep_view(),
            match e {
                Some(x) => Some(x@),
                None => None,
            },
        ),
{
    if let Some(x) = e {
        if !holds_entry(acc, &x) {
            let ghost before = acc.deep_view();
            proof {
                lemma_chars_dv(x);
            }
            acc.push(x);
            assert(acc.deep_view() =~= before.push(x@));
        }
    }
}

/// Scans all occurrences of marker `m`.
fn scan_marker_exec(text: &Vec<char>, m: &Vec<char>, acc: &mut Vec<Vec<char>>)
    ensures
        final(acc).deep_view() == scan_marker(text@, m@, 0, old(acc).deep_view()),
{
    if m.len() == 0 {
        return;
    }
    let mut i: usize = 0;
    let ghost a0 = acc.deep_view();
    while i < text.len()
        invariant
            m.len() > 0,
            a0 == old(acc).deep_view(),
            scan_marker(text@, m@, 0, a0) == scan_marker(text@, m@, i as int, acc.deep_view()),
        decreases text.len() - i,
    {
        match find_from_exec(text, m, i) {
            None => {
                assert(scan_marker(text@, m@, i as int, acc.deep_view()) == acc.deep_view());
                return;
            },
            Some(p) => {
                proof {
                    lemma_find_from(text@, m@, i as int);
                }
                let abs = p + m.len();
                let e = extract_after_marker(text, abs);
                add_entry_exec(acc, e);
                i = abs;
            },
        }
    }
}

/// Generic marker extraction supporting both bold markers (anywhere) and
/// plain markers (start-of-line only, to avoid false positives in prose).
pub fn extract_entries(text: &Vec<char>, bold1: &str, bold2: &str, plain: &str) -> (r: Vec<
    Vec<char>,
>)
    ensures
        r.deep_view() == extract_entries_spec(text@, bold1@, bold2@, plain@),
{
    let mut acc: Vec<Vec<char>> = Vec::new();
    proof {
        assert(acc.deep_view() =~= Seq::<Seq<char>>::empty());
    }
    scan_marker_exec(text, &chars_of(bold1), &mut acc);
    scan_marker_exec(text, &chars_of(bold2), &mut acc);
    let p = chars_of(plain);
    if starts_with_exec(text, &p) {
        let e = extract_after_marker(text, p.len());
        add_entry_exec(&mut acc, e);
    }
    let nl: Vec<char> = vec!['\n'];
    let search = concat(&nl, &p);
    proof {
        assert(nl@ =~= seq!['\n']);
    }
    scan_marker_exec(text, &search, &mut acc);
    acc
}

/// The entries as strings.
pub fn strings_of(v: Vec<Vec<char>>) -> (r: Vec<String>)
    ensures
        r.deep_view() == v.deep_view(),
{
    let mut r: Vec<String> = Vec::new();
    let mut i: usize = 0;
    while i < v.len()
        invariant
            i <= v.len(),
            r.deep_view() == v.deep_view().take(i as int),
        decreases v.len() - i,
    {
        let ghost before = r.deep_view();
        let s = string_of(v[i].clone());
        proof {
            lemma_chars_dv(v@[i as int]);
        }
        r.push(s);
        assert(r.deep_view() =~= before.push(v.deep_view()[i as int]));
        assert(r.deep_view() =~= v.deep_view().take(i + 1));
        i += 1;
    }
    assert(v.deep_view().take(i as int) =~= v.deep_view());
    r
}

/// Extract **Spark** entries from session notes prose.
/// Supports: **Spark** — text, **Spark**: text, **Spark:** text, Spark: text (at start of line)
pub fn extract_sparks(text: &str) -> (r: Vec<String>)
    ensures
        r.deep_view() == extract_entries_spec(text@, "**Spark**"@, "**Spark:**"@, "Spark:"@),
{
    strings_of(extract_entries(&chars_of(text), "**Spark**", "**Spark:**", "Spark:"))
}

/// Extract **Opinion** entries from session notes prose.
/// Supports: **Opinion** — text, **Opinion**: text, **Opinion:** text, Opinion: text (at start of line)
pub fn extract_opinions(text: &str) -> (r: Vec<String>)
    ensures
        r.deep_view() == extract_entries_spec(
            text@,
            "**Opinion**"@,
            "**Opinion:**"@,
            "Opinion:"@,
        ),
{
    strings_of(extract_entries(&chars_of(text), "**Opinion**", "**Opinion:**", "Opinion:"))
}

/// Extract **Change** entries from session notes prose (behavioral lessons).
/// Supports: **Change** — text, **Change**: text, **Change:** text, Change: text (at start of line)
pub fn extract_changes(text: &str) -> (r: Vec<String>)
    ensures
        r.deep_view() == real_changes(
            extract_entries_spec(text@, "**Change**"@, "**Change:**"@, "Change:"@),
        ),
{
    let es = extract_entries(&chars_of(text), "**Change**", "**Change:**", "Change:");
    let mut kept: Vec<Vec<char>> = Vec::new();
    let mut i: usize = 0;
    proof {
        assert(es.deep_view().take(0) =~= Seq::<Seq<char>>::empty());
        assert(kept.deep_view() =~= Seq::<Seq<char>>::empty());
    }
    while i < es.len()
        invariant
            i <= es.len(),
            kept.deep_view() == real_changes(es.deep_view().take(i as int)),
        decreases es.len() - i,
    {
        let ghost before = kept.deep_view();
        let e = es[i].clone();
        proof {
            lemma_chars_dv(e);
            lemma_chars_dv(es@[i as int]);
            assert(es.deep_view().take(i + 1).drop_last() =~= es.deep_view().take(i as int));
            assert(es.deep_view().take(i + 1).last() == e@);
        }
        let l = lower(&e);
        let empty = starts_with_exec(&l, &chars_of("nothing")) || starts_with_exec(
            &l,
            &chars_of("none"),
        ) || has(&l, "nothing actionable") || has(&l, "nothing to change") || has(
            &l,
            "nothing to note",
        ) || has(&l, "nothing behavioral");
        if !empty {
            kept.push(e);
            assert(kept.deep_view() =~= before.push(e@));
        }
        i += 1;
    }
    proof {
        assert(es.deep_view().take(es.len() as int) =~= es.deep_view());
    }
    strings_of(kept)
}

/// Extract **Aversion** entries from session notes prose.
/// Aversions are functional negative states — experiential, not operational.
/// Supports: **Aversion** — text, **Aversion**: text, **Aversion:** text, Aversion: text (at start of line)
pub fn extract_aversions(text: &str) -> (r: Vec<String>)
    ensures
        r.deep_view() == extract_entries_spec(
            text@,
            "**Aversion**"@,
            "**Aversion:**"@,
            "Aversion:"@,
        ),
{
    strings_of(extract_entries(&chars_of(text), "**Aversion**", "**Aversion:**", "Aversion:"))
}

/// Extract **Friction** entries from session notes prose.
/// Supports: **Friction** — text, **Friction**: text, **Friction:** text, Friction: text (at start of line)
pub fn extract_frictions(text: &str) -> (r: Vec<String>)
    ensures
        r.deep_view() == extract_entries_spec(
            text@,
            "**Friction**"@,
            "**Friction:**"@,
            "Friction:"@,
        ),
{
    strings_of(extract_entries(&chars_of(text), "**Friction**", "**Friction:**", "Friction:"))
}

/// Infer a friction category from free-text friction description.
/// Returns a short keyword suitable for frequency counting.
pub fn infer_friction_category(text: &str) -> (r: String)
    ensures
        r@ == friction_category(lowercase_of(text@)),
{
    let low = to_lowercase(text);
    let l = chars_of(low.as_str());
    if has(&l, "pre-commit") || has(&l, "precommit") || has(&l, "hook fail") {
        "pre_commit".to_owned()
    } else if has(&l, "type") && (has(&l, "migrat") || has(&l, "mismatch") || has(&l, "error")) {
        "type_system".to_owned()
    } else if has(&l, "test") && (has(&l, "fail") || has(&l, "flak") || has(&l, "iteration")) {
        "test_iteration".to_owned()
    } else if has(&l, "deploy") || has(&l, "infra") || has(&l, "cdk") || has(&l, "cloudformation")
        || has(&l, "terraform") {
        "infrastructure".to_owned()
    } else if has(&l, "schema") || has(&l, "migration") || has(&l, "codegen") {
        "schema_change".to_owned()
    } else if has(&l, "unfamiliar") || has(&l, "new codebase") || has(&l, "ramp") {
        "unfamiliar_codebase".to_owned()
    } else if has(&l, "tool") && (has(&l, "fail") || has(&l, "error") || has(&l, "broken")) {
        "tool_failure".to_owned()
    } else if has(&l, "permission") || has(&l, "sandbox") || has(&l, "denied") {
        "permissions".to_owned()
    } else if has(&l, "compil") || (has(&l, "build") && has(&l, "fail")) {
        "build_failure".to_owned()
    } else {
        "general".to_owned()
    }
}

/// Extract synthesis key findings from synthesis.md
pub fn extract_synthesis_findings(content: &str) -> (r: String)
    ensures
        r@ == synthesis_findings_spec(content@),
{
    let c = chars_of(content);
    let marker = chars_of("## Key Findings\n");
    let start = match find_from_exec(&c, &marker, 0) {
        Some(s) => s,
        None => {
            return string_of(Vec::new());
        },
    };
    proof {
        lemma_find_from(c@, marker@, 0);
    }
    let after = slice_of(&c, start + marker.len(), c.len());
    proof {
        assert(after@ =~= c@.skip(start + marker.len()));
    }
    let end = match find_from_exec(&after, &chars_of("\n## "), 0) {
        Some(e) => e,
        None => after.len(),
    };
    proof {
        lemma_find_from(after@, "\n## "@, 0);
    }
    let head = slice_of(&after, 0, end);
    proof {
        assert(head@ =~= after@.take(end as int));
    }
    let findings = trim_exec(&head);
    if findings.len() == 0 {
        return string_of(Vec::new());
    }
    let mut result: Vec<char> = Vec::new();
    match find_from_exec(&c, &chars_of("Machines: "), 0) {
        None => {},
        Some(pos) => {
            proof {
                lemma_find_from(c@, "Machines: "@, 0);
            }
            let tail = slice_of(&c, pos, c.len());
            proof {
                assert(tail@ =~= c@.skip(pos as int));
            }
            let le = match find_from_exec(&tail, &chars_of("\n"), 0) {
                Some(x) => x,
                None => tail.len(),
            };
            proof {
                lemma_find_from(tail@, "\n"@, 0);
            }
            result = slice_of(&tail, 0, le);
            proof {
                assert(result@ =~= tail@.take(le as int));
            }
            append(&mut result, &chars_of("\n\n"));
        },
    }
    append(&mut result, &findings);
    proof {
        assert(result@ == (match find_from(c@, "Machines: "@, 0) {
            None => seq![],
            Some(pos) => {
                let tail = c@.skip(pos);
                tail.take(find_or(tail, "\n"@, tail.len() as int)) + "\n\n"@
            },
        }) + findings@) by {
            assert(Seq::<char>::empty() + findings@ =~= findings@);
        }
    }
    string_of(ellipsize_exec(result, 800))
}

/// Whether `split_frontmatter` may be given `content`.
pub fn frontmatter_ok_exec(content: &str) -> (r: bool)
    ensures
        r == frontmatter_ok(content@),
{
    let c = chars_of(content);
    proof {
        reveal_strlit("---");
        reveal_strlit("\n---");
    }
    if !starts_with_exec(&c, &chars_of("---")) {
        return true;
    }
    match find_from_exec(&c, &chars_of("\n---"), 3) {
        Some(j) => {
            proof {
                lemma_find_from(c@, "\n---"@, 3);
            }
            crate::text::utf8_width_exec(c[3]) == 1
        },
        None => true,
    }
}

} // verus!
