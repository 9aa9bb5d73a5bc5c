//! preflight — run formatters and linters, then stage, before committing.
//! The caller looks at the files, runs the tools and prints; which
//! directories count, which crates changed, what clippy is asked to do and
//! what is reported are decided here.
use crate::commands::extract_handoff::{insert_sorted, insert_sorted_exec};
use crate::commands::statusline::{parse_u64, parse_u64_exec};
use crate::markdown::chars_eq;
use crate::text::{
    append, chars_of, decimal, dec, find_from, find_from_exec, join, lemma_chars_dv, lemma_find_from,
    lines, lines_exec, slice_of, string_of, trim, trim_exec,
};
use vstd::prelude::*;

verus! {

/// Directories never searched for projects: hidden ones, `node_modules`,
/// `target` and `__pycache__`.
pub open spec fn hidden_name(name: Seq<char>) -> bool {
    ||| (name.len() > 0 && name[0] == '.')
    ||| name == "node_modules"@
    ||| name == "target"@
    ||| name == "__pycache__"@
}

/// Whether a directory (by its file name) is skipped.
pub fn is_hidden(name: &str) -> (r: bool)
    ensures
        r == hidden_name(name@),
{
    let n = chars_of(name);
    (n.len() > 0 && n[0] == '.') || chars_eq(&n, &chars_of("node_modules")) || chars_eq(&n, &chars_of("target"))
        || chars_eq(&n, &chars_of("__pycache__"))
}

/// The changed files: the non-empty lines of both `git diff` listings,
/// sorted, each once.
pub open spec fn changed_files_of(ls: Seq<Seq<char>>) -> Seq<Seq<char>>
    decreases ls.len(),
{
    if ls.len() == 0 {
        seq![]
    } else {
        let prev = changed_files_of(ls.drop_last());
        if ls.last().len() > 0 {
            insert_sorted(prev, ls.last())
        } else {
            prev
        }
    }
}

fn add_lines(acc: &mut Vec<Vec<char>>, ls: &Vec<Vec<char>>)
    ensures
        final(acc).deep_view() == changed_files_of_from(old(acc).deep_view(), ls.deep_view()),
{
    let ghost a0 = acc.deep_view();
    let ghost lv = ls.deep_view();
    let mut i: usize = 0;
    while i < ls.len()
        invariant
            i <= ls.len(),
            lv == ls.deep_view(),
            acc.deep_view() == changed_files_of_from(a0, lv.take(i as int)),
        decreases ls.len() - i,
    {
        assert(lv.take(i + 1).drop_last() =~= lv.take(i as int));
        proof {
            lemma_chars_dv(ls@[i as int]);
        }
        if ls[i].len() > 0 {
            insert_sorted_exec(acc, slice_of(&ls[i], 0, ls[i].len()));
            assert(ls@[i as int]@.subrange(0, ls@[i as int]@.len() as int) =~= ls@[i as int]@);
        }
        i += 1;
    }
    assert(lv.take(ls.len() as int) =~= lv);
}

/// `changed_files_of` continued from `acc`.
pub open spec fn changed_files_of_from(acc: Seq<Seq<char>>, ls: Seq<Seq<char>>) -> Seq<Seq<char>>
    decreases ls.len(),
{
    if ls.len() == 0 {
        acc
    } else {
        let prev = changed_files_of_from(acc, ls.drop_last());
        if ls.last().len() > 0 {
            insert_sorted(prev, ls.last())
        } else {
            prev
        }
    }
}

proof fn lemma_from_empty(ls: Seq<Seq<char>>)
    ensures
        changed_files_of_from(seq![], ls) == changed_files_of(ls),
    decreases ls.len(),
{
    if ls.len() > 0 {
        lemma_from_empty(ls.drop_last());
    }
}

/// The files changed, staged or not, from the two `git diff --name-only`
/// outputs: sorted, each once.
pub fn changed_files(staged: &str, unstaged: &str) -> (r: Vec<String>)
    ensures
        r@.map_values(|s: String| s@) == changed_files_of_from(changed_files_of(lines(staged@)), lines(unstaged@)),
{
    let mut acc: Vec<Vec<char>> = Vec::new();
    assert(acc.deep_view() =~= Seq::<Seq<char>>::empty());
    let s = lines_exec(&chars_of(staged));
    add_lines(&mut acc, &s);
    proof {
        lemma_from_empty(lines(staged@));
    }
    add_lines(&mut acc, &lines_exec(&chars_of(unstaged)));
    let ghost av = acc.deep_view();
    let mut out: Vec<String> = Vec::new();
    let mut j: usize = 0;
    while j < acc.len()
        invariant
            j <= acc.len(),
            av == acc.deep_view(),
            out@.map_values(|s: String| s@) == av.take(j as int),
        decreases acc.len() - j,
    {
        proof {
            lemma_chars_dv(acc@[j as int]);
        }
        let ghost before = out@.map_values(|s: String| s@);
        let item = string_of(slice_of(&acc[j], 0, acc[j].len()));
        assert(acc[j as int]@.subrange(0, acc[j as int]@.len() as int) =~= acc[j as int]@);
        assert(av[j as int] == acc@[j as int]@);
        out.push(item);
        assert(out@.map_values(|s: String| s@) =~= before.push(item@));
        assert(av.take(j + 1) =~= av.take(j as int).push(av[j as int]));
        j += 1;
    }
    assert(av.take(acc.len() as int) =~= av);
    out
}

/// Adds a crate's package name unless it is listed already.
pub fn note_crate(names: &mut Vec<String>, name: String)
    ensures
        final(names)@.map_values(|s: String| s@) == if old(names)@.map_values(|s: String| s@).contains(name@) {
            old(names)@.map_values(|s: String| s@)
        } else {
            old(names)@.map_values(|s: String| s@).push(name@)
        },
{
    let ghost nv = names@.map_values(|s: String| s@);
    let nc = chars_of(name.as_str());
    let mut i: usize = 0;
    while i < names.len()
        invariant
            i <= names.len(),
            nv == names@.map_values(|s: String| s@),
            nv == old(names)@.map_values(|s: String| s@),
            nc@ == name@,
            forall|k: int| 0 <= k < i ==> nv[k] != name@,
        decreases names.len() - i,
    {
        if chars_eq(&chars_of(names[i].as_str()), &nc) {
            assert(nv[i as int] == name@);
            return;
        }
        i += 1;
    }
    let ghost xv = name@;
    names.push(name);
    assert(names@.map_values(|s: String| s@) =~= nv.push(xv));
}

/// `s` without leading and trailing `c`.
pub open spec fn trim_matches(s: Seq<char>, c: char) -> Seq<char>
    decreases s.len(),
{
    if s.len() > 0 && s[0] == c {
        trim_matches(s.skip(1), c)
    } else if s.len() > 0 && s.last() == c {
        trim_matches(s.drop_last(), c)
    } else {
        s
    }
}

fn trim_matches_exec(s: &Vec<char>, c: char) -> (r: Vec<char>)
    ensures
        r@ == trim_matches(s@, c),
{
    let mut lo: usize = 0;
    let mut hi: usize = s.len();
    assert(s@.subrange(0, s@.len() as int) =~= s@);
    while lo < hi && s[lo] == c
        invariant
            lo <= hi <= s.len(),
            hi == s.len(),
            trim_matches(s@.subrange(lo as int, hi as int), c) == trim_matches(s@, c),
        decreases hi - lo,
    {
        assert(s@.subrange(lo as int, hi as int).skip(1) =~= s@.subrange(lo + 1, hi as int));
        lo += 1;
    }
    while lo < hi && s[hi - 1] == c
        invariant
            lo <= hi <= s.len(),
            lo == hi || s@[lo as int] != c,
            trim_matches(s@.subrange(lo as int, hi as int), c) == trim_matches(s@, c),
        decreases hi - lo,
    {
        assert(s@.subrange(lo as int, hi as int).drop_last() =~= s@.subrange(lo as int, hi - 1));
        hi -= 1;
    }
    slice_of(s, lo, hi)
}

/// The value of a `name = ...` line: after the first `=`, trimmed, without
/// surrounding double quotes and then single quotes.
pub open spec fn name_value(line: Seq<char>) -> Option<Seq<char>> {
    match find_from(line, seq!['='], 0) {
        Some(k) => if trim(line.take(k)) == "name"@ {
            Some(trim_matches(trim_matches(trim(line.skip(k + 1)), '"'), '\''))
        } else {
            None
        },
        None => None,
    }
}

/// The package name in the lines from `i` on, inside `[package]` when
/// `in_package`.
pub open spec fn package_name_from(ls: Seq<Seq<char>>, i: int, in_package: bool) -> Option<Seq<char>>
    decreases ls.len() - i,
{
    if i < 0 || i >= ls.len() {
        None
    } else {
        let t = trim(ls[i]);
        if t == "[package]"@ {
            package_name_from(ls, i + 1, true)
        } else if t.len() > 0 && t[0] == '[' {
            if in_package {
                None
            } else {
                package_name_from(ls, i + 1, in_package)
            }
        } else if in_package && name_value(t) is Some {
            name_value(t)
        } else {
            package_name_from(ls, i + 1, in_package)
        }
    }
}

/// The `name` of a Cargo.toml's `[package]` table.
pub open spec fn package_name_of(content: Seq<char>) -> Option<Seq<char>> {
    package_name_from(lines(content), 0, false)
}

fn name_value_exec(line: &Vec<char>) -> (r: Option<Vec<char>>)
    ensures
        match r {
            Some(v) => name_value(line@) == Some(v@),
            None => name_value(line@) is None,
        },
{
    let mut eq: Vec<char> = Vec::new();
    eq.push('=');
    assert(eq@ =~= seq!['=']);
    proof {
        reveal_strlit("name");
    }
    match find_from_exec(line, &eq, 0) {
        Some(k) => {
            proof {
                lemma_find_from(line@, eq@, 0);
            }
            assert(k < line.len());
            let key = trim_exec(&slice_of(line, 0, k));
            assert(line@.subrange(0, k as int) =~= line@.take(k as int));
            if chars_eq(&key, &chars_of("name")) {
                let value = slice_of(line, k + 1, line.len());
                assert(value@ =~= line@.skip(k + 1));
                let t = trim_exec(&value);
                let a = trim_matches_exec(&t, '"');
                Some(trim_matches_exec(&a, '\''))
            } else {
                None
            }
        },
        None => None,
    }
}

/// Reads the package name out of a `Cargo.toml`.
pub fn package_name(content: &str) -> (r: Option<String>)
    ensures
        match r {
            Some(v) => package_name_of(content@) == Some(v@),
            None => package_name_of(content@) is None,
        },
{
    let ls = lines_exec(&chars_of(content));
    let ghost lv = ls.deep_view();
    let mut in_package = false;
    let mut i: usize = 0;
    proof {
        reveal_strlit("[package]");
    }
    while i < ls.len()
        invariant
            i <= ls.len(),
            lv == ls.deep_view(),
            lv == lines(content@),
            package_name_from(lv, i as int, in_package) == package_name_of(content@),
        decreases ls.len() - i,
    {
        proof {
            lemma_chars_dv(ls@[i as int]);
        }
        let t = trim_exec(&ls[i]);
        if chars_eq(&t, &chars_of("[package]")) {
            in_package = true;
        } else if t.len() > 0 && t[0] == '[' {
            if in_package {
                return None;
            }
        } else if in_package {
            match name_value_exec(&t) {
                Some(v) => {
                    return Some(string_of(v));
                },
                None => {},
            }
        }
        i += 1;
    }
    None
}

/// The clippy timeout in seconds: `PREFLIGHT_CLIPPY_TIMEOUT` when it
/// parses, else 30.
pub fn clippy_timeout_secs(setting: Option<&str>) -> (r: u64)
    ensures
        r == match setting {
            Some(s) => match parse_u64(s@) {
                Some(n) => n,
                None => 30,
            },
            None => 30,
        },
{
    match setting {
        Some(s) => match parse_u64_exec(&chars_of(s)) {
            Some(n) => n,
            None => 30,
        },
        None => 30,
    }
}

/// What is reported after clippy ran: nothing on success, a note on
/// unfixable issues, and the timeout when it was killed.
pub open spec fn clippy_report_text(result: Option<bool>, timeout_secs: nat) -> Option<Seq<char>> {
    match result {
        Some(true) => None,
        Some(false) => Some("    clippy found unfixable issues (fixes still applied)"@),
        None => Some("    clippy timed out after "@ + dec(timeout_secs) + "s, skipping (set PREFLIGHT_CLIPPY_TIMEOUT to adjust)"@),
    }
}

/// Reports how clippy ended.
pub fn clippy_report(result: Option<bool>, timeout_secs: u64) -> (r: Option<String>)
    ensures
        match r {
            Some(m) => clippy_report_text(result, timeout_secs as nat) == Some(m@),
            None => clippy_report_text(result, timeout_secs as nat) is None,
        },
{
    match result {
        Some(true) => None,
        Some(false) => Some("    clippy found unfixable issues (fixes still applied)".to_owned()),
        None => {
            let mut m = chars_of("    clippy timed out after ");
            append(&mut m, &decimal(timeout_secs));
            append(&mut m, &chars_of("s, skipping (set PREFLIGHT_CLIPPY_TIMEOUT to adjust)"));
            Some(string_of(m))
        },
    }
}

/// What clippy is asked to do: skip when a workspace has no changed
/// crate; otherwise fix, restricted to the changed crates of a workspace.
pub enum ClippyPlan {
    Skip,
    Run { note: String, args: Vec<String> },
}

/// The arguments `clippy --fix --allow-dirty --allow-staged --all-targets`,
/// then `-p name` for each crate.
pub open spec fn clippy_args_of(crates: Seq<Seq<char>>) -> Seq<Seq<char>>
    decreases crates.len(),
{
    if crates.len() == 0 {
        seq!["clippy"@, "--fix"@, "--allow-dirty"@, "--allow-staged"@, "--all-targets"@]
    } else {
        clippy_args_of(crates.drop_last()) + seq!["-p"@, crates.last()]
    }
}

/// Plans clippy for a workspace's changed crates, or for a single crate
/// (`None`).
pub fn clippy_plan(crates: Option<&Vec<String>>) -> (r: ClippyPlan)
    ensures
        match crates {
            Some(cs) if cs.len() == 0 => r is Skip,
            Some(cs) => r matches ClippyPlan::Run { note, args }
                && note@ == "    cargo clippy --fix -p {"@ + join(cs@.map_values(|s: String| s@), ", "@) + "}..."@
                && args@.map_values(|s: String| s@) == clippy_args_of(cs@.map_values(|s: String| s@)),
            None => r matches ClippyPlan::Run { note, args } && note@ == "    cargo clippy --fix..."@
                && args@.map_values(|s: String| s@) == clippy_args_of(seq![]),
        },
{
    let mut args: Vec<String> = Vec::new();
    args.push("clippy".to_owned());
    args.push("--fix".to_owned());
    args.push("--allow-dirty".to_owned());
    args.push("--allow-staged".to_owned());
    args.push("--all-targets".to_owned());
    assert(args@.map_values(|s: String| s@) =~= clippy_args_of(seq![]));
    match crates {
        None => ClippyPlan::Run { note: "    cargo clippy --fix...".to_owned(), args },
        Some(cs) => {
            if cs.len() == 0 {
                return ClippyPlan::Skip;
            }
            let ghost cv = cs@.map_values(|s: String| s@);
            let mut parts: Vec<Vec<char>> = Vec::new();
            let mut i: usize = 0;
            while i < cs.len()
                invariant
                    i <= cs.len(),
                    cv == cs@.map_values(|s: String| s@),
                    parts.deep_view() == cv.take(i as int),
                    args@.map_values(|s: String| s@) == clippy_args_of(cv.take(i as int)),
                decreases cs.len() - i,
            {
                assert(cv.take(i + 1).drop_last() =~= cv.take(i as int));
                let ghost before = args@.map_values(|s: String| s@);
                args.push("-p".to_owned());
                args.push(cs[i].clone());
                assert(args@.map_values(|s: String| s@) =~= before + seq!["-p"@, cs@[i as int]@]);
                let c = chars_of(cs[i].as_str());
                let ghost pb = parts.deep_view();
                proof {
                    lemma_chars_dv(c);
                }
                let ghost cvv = c@;
                parts.push(c);
                assert(parts.deep_view() =~= pb.push(cvv));
                assert(cv.take(i + 1) =~= cv.take(i as int).push(cvv));
                i += 1;
            }
            assert(cv.take(cs.len() as int) =~= cv);
            let mut note = chars_of("    cargo clippy --fix -p {");
            append(&mut note, &crate::text::join_exec(&parts, &chars_of(", ")));
            append(&mut note, &chars_of("}..."));
            ClippyPlan::Run { note: string_of(note), args }
        },
    }
}

/// How a project is labelled: its kind, with its path unless it is `.`.
pub fn project_label(kind: &str, path: &str) -> (r: String)
    ensures
        r@ == if path@ == "."@ { kind@ } else { kind@ + " ("@ + path@ + ")"@ },
{
    let p = chars_of(path);
    if chars_eq(&p, &chars_of(".")) {
        kind.to_owned()
    } else {
        let mut m = chars_of(kind);
        append(&mut m, &chars_of(" ("));
        append(&mut m, &p);
        append(&mut m, &chars_of(")"));
        string_of(m)
    }
}

/// The kinds of project a directory holds, from its marker files.
pub fn project_kinds(has_python: bool, has_cargo: bool, has_package_json: bool) -> (r: Vec<String>)
    ensures
        r@.map_values(|s: String| s@) == (if has_python { seq!["python"@] } else { seq![] }) + (if has_cargo {
            seq!["rust"@]
        } else {
            seq![]
        }) + (if has_package_json { seq!["node"@] } else { seq![] }),
{
    let mut r: Vec<String> = Vec::new();
    if has_python {
        r.push("python".to_owned());
    }
    if has_cargo {
        r.push("rust".to_owned());
    }
    if has_package_json {
        r.push("node".to_owned());
    }
    assert(r@.map_values(|s: String| s@) =~= (if has_python { seq!["python"@] } else { seq![] }) + (if has_cargo {
        seq!["rust"@]
    } else {
        seq![]
    }) + (if has_package_json { seq!["node"@] } else { seq![] }));
    r
}

} // verus!
