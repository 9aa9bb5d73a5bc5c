//! patchpath — resolve the correct `mock.patch()` target for a Python symbol.
//!
//! Python's mock.patch() requires you to patch where a name is *looked up*,
//! not where it's *defined*. This tool traces the import chain to find the
//! correct patch target. The caller walks the tree and reads the files;
//! the import index and the answer are built here.
use crate::markdown::chars_eq;
use crate::text::{
    append, chars_of, contains, contains_exec, ends_with, ends_with_exec, find_from,
    find_from_exec, join, join_exec, lemma_chars_dv, lemma_find_from, lines, lines_exec,
    slice_of, split, split_exec, starts_with, starts_with_exec, string_of, trim, trim_exec,
};
use vstd::prelude::*;

verus! {

// ---------------------------------------------------------------------------
// Module paths
// ---------------------------------------------------------------------------

/// Number of leading dots of `s`.
pub open spec fn lead_dots(s: Seq<char>) -> nat
    decreases s.len(),
{
    if s.len() > 0 && s[0] == '.' {
        1 + lead_dots(s.skip(1))
    } else {
        0
    }
}

/// The absolute module a `from` import names, from module `current`:
/// `n` leading dots climb `n` levels of `current`'s path.
pub open spec fn resolved_import(source: Seq<char>, current: Seq<char>) -> Seq<char> {
    if !starts_with(source, "."@) {
        source
    } else {
        let parts = split(current, "."@);
        let dots = lead_dots(source);
        let remainder = source.skip(dots as int);
        let base = if parts.len() > dots {
            parts.take(parts.len() - dots)
        } else {
            seq![]
        };
        let joined = join(base, "."@);
        if remainder.len() == 0 {
            joined
        } else if joined.len() == 0 {
            remainder
        } else {
            joined + "."@ + remainder
        }
    }
}

fn lead_dots_exec(s: &Vec<char>) -> (r: usize)
    ensures
        r == lead_dots(s@),
        r <= s.len(),
{
    let mut i: usize = 0;
    assert(s@.skip(0) =~= s@);
    while i < s.len() && s[i] == '.'
        invariant
            i <= s.len(),
            lead_dots(s@) == i + lead_dots(s@.skip(i as int)),
        decreases s.len() - i,
    {
        assert(s@.skip(i as int).skip(1) =~= s@.skip(i + 1));
        i += 1;
    }
    i
}

fn prefix_parts(parts: &Vec<Vec<char>>, n: usize) -> (r: Vec<Vec<char>>)
    requires
        n <= parts.len(),
    ensures
        r.deep_view() == parts.deep_view().take(n as int),
{
    let mut r: Vec<Vec<char>> = Vec::new();
    let mut i: usize = 0;
    while i < n
        invariant
            i <= n <= parts.len(),
            r.deep_view() == parts.deep_view().take(i as int),
        decreases n - i,
    {
        proof {
            lemma_chars_dv(parts@[i as int]);
        }
        let x = parts[i].clone();
        let ghost before = r.deep_view();
        proof {
            lemma_chars_dv(x);
        }
        let ghost xv = x@;
        r.push(x);
        assert(r.deep_view() =~= before.push(xv));
        assert(parts.deep_view().take(i + 1) =~= parts.deep_view().take(i as int).push(xv));
        i += 1;
    }
    r
}

/// Resolves a relative `from` import against the importing module.
pub fn resolve_relative_import(source: &str, current_module: &str) -> (r: String)
    ensures
        r@ == resolved_import(source@, current_module@),
{
    let s = chars_of(source);
    if !starts_with_exec(&s, &chars_of(".")) {
        return source.to_owned();
    }
    let dot = chars_of(".");
    proof {
        reveal_strlit(".");
    }
    let parts = split_exec(&chars_of(current_module), &dot);
    let dots = lead_dots_exec(&s);
    let remainder = slice_of(&s, dots, s.len());
    assert(remainder@ =~= s@.skip(dots as int));
    let base = if parts.len() > dots {
        prefix_parts(&parts, parts.len() - dots)
    } else {
        Vec::new()
    };
    let mut resolved = join_exec(&base, &dot);
    if remainder.len() > 0 {
        if resolved.len() > 0 {
            append(&mut resolved, &dot);
        }
        append(&mut resolved, &remainder);
    }
    string_of(resolved)
}

/// `s` with `p` dropped from its front, when it starts with it.
pub open spec fn strip_prefix(s: Seq<char>, p: Seq<char>) -> Seq<char> {
    if starts_with(s, p) {
        s.skip(p.len() as int)
    } else {
        s
    }
}

/// `s` with `p` dropped from its end, when it ends with it.
pub open spec fn strip_suffix(s: Seq<char>, p: Seq<char>) -> Seq<char> {
    if ends_with(s, p) {
        s.take(s.len() - p.len())
    } else {
        s
    }
}

/// `s` with each `/` replaced by `.`.
pub open spec fn dotted(s: Seq<char>) -> Seq<char> {
    s.map_values(|c: char| if c == '/' { '.' } else { c })
}

/// The module a Python file defines: the path without `./`, `.py`,
/// `/__init__` and a leading `src.`, its slashes as dots.
pub open spec fn module_of(path: Seq<char>) -> Seq<char> {
    let s = strip_suffix(strip_suffix(strip_prefix(path, "./"@), ".py"@), "/__init__"@);
    strip_prefix(dotted(s), "src."@)
}

fn strip_prefix_exec(s: Vec<char>, p: &str) -> (r: Vec<char>)
    ensures
        r@ == strip_prefix(s@, p@),
{
    let pv = chars_of(p);
    if starts_with_exec(&s, &pv) {
        let r = slice_of(&s, pv.len(), s.len());
        assert(r@ =~= s@.skip(pv.len() as int));
        r
    } else {
        s
    }
}

fn strip_suffix_exec(s: Vec<char>, p: &str) -> (r: Vec<char>)
    ensures
        r@ == strip_suffix(s@, p@),
{
    let pv = chars_of(p);
    if ends_with_exec(&s, &pv) {
        let r = slice_of(&s, 0, s.len() - pv.len());
        assert(r@ =~= s@.take(s.len() - pv.len()));
        r
    } else {
        s
    }
}

/// The module a Python file defines (see `module_of`).
pub fn file_to_module(path: &str) -> (r: String)
    ensures
        r@ == module_of(path@),
{
    let s = strip_prefix_exec(chars_of(path), "./");
    let s = strip_suffix_exec(s, ".py");
    let s = strip_suffix_exec(s, "/__init__");
    let mut d: Vec<char> = Vec::new();
    let mut i: usize = 0;
    while i < s.len()
        invariant
            i <= s.len(),
            d@ == dotted(s@.take(i as int)),
        decreases s.len() - i,
    {
        let c = s[i];
        d.push(if c == '/' { '.' } else { c });
        assert(dotted(s@.take(i + 1)) =~= dotted(s@.take(i as int)).push(if c == '/' { '.' } else { c }));
        i += 1;
    }
    assert(s@.take(s.len() as int) =~= s@);
    string_of(strip_prefix_exec(d, "src."))
}

/// Directories and files the tree walk skips: hidden ones, caches, virtual
/// environments and build outputs.
pub open spec fn skipped_name(name: Seq<char>) -> bool {
    starts_with(name, "."@) || name == "node_modules"@ || name == "__pycache__"@ || name
        == ".venv"@ || name == "venv"@ || name == ".tox"@ || name == "target"@ || name
        == "cdk.out"@ || name == "dist"@ || name == "build"@ || name == "_build"@ || name
        == "site-packages"@
}

/// Whether the tree walk skips an entry named `name`.
pub fn skip_entry(name: &str) -> (r: bool)
    ensures
        r == skipped_name(name@),
{
    let n = name.to_owned();
    starts_with_exec(&chars_of(name), &chars_of(".")) || n == "node_modules".to_owned() || n
        == "__pycache__".to_owned() || n == ".venv".to_owned() || n == "venv".to_owned() || n
        == ".tox".to_owned() || n == "target".to_owned() || n == "cdk.out".to_owned() || n
        == "dist".to_owned() || n == "build".to_owned() || n == "_build".to_owned() || n
        == "site-packages".to_owned()
}

// ---------------------------------------------------------------------------
// Import statements
// ---------------------------------------------------------------------------

/// One imported name: the name bound in the importing module, the module it
/// comes from, and the importing module.
pub struct ImportEntry {
    pub symbol: String,
    pub source_module: String,
    pub importing_module: String,
}

/// An import as (symbol, source module, importing module).
pub type ImportView = (Seq<char>, Seq<char>, Seq<char>);

/// The entries as views.
pub open spec fn import_views(v: Seq<ImportEntry>) -> Seq<ImportView> {
    v.map_values(|e: ImportEntry| (e.symbol@, e.source_module@, e.importing_module@))
}

/// A parenthesised import list continued over the lines from `j` until one
/// holds `)`.
pub open spec fn paren_join(ls: Seq<Seq<char>>, j: int, full: Seq<char>) -> (Seq<char>, int)
    decreases ls.len() - j,
{
    if j < 0 || j >= ls.len() {
        (full, j)
    } else {
        let f2 = full + " "@ + trim(ls[j]);
        if contains(ls[j], ")"@) {
            (f2, j + 1)
        } else {
            paren_join(ls, j + 1, f2)
        }
    }
}

/// An import list continued with trailing backslashes over the lines from `j`.
pub open spec fn backslash_join(ls: Seq<Seq<char>>, j: int, full: Seq<char>) -> (Seq<char>, int)
    decreases ls.len() - j, full.len(),
{
    if full.len() > 0 && full.last() == '\\' {
        let f = full.drop_last();
        if 0 <= j < ls.len() {
            backslash_join(ls, j + 1, f + " "@ + trim(ls[j]))
        } else {
            backslash_join(ls, j, f)
        }
    } else {
        (full, j)
    }
}

/// A continued import list ends at or after the line it started from.
pub proof fn lemma_paren_join(ls: Seq<Seq<char>>, j: int, full: Seq<char>)
    requires
        0 <= j <= ls.len(),
    ensures
        j <= paren_join(ls, j, full).1 <= ls.len(),
    decreases ls.len() - j,
{
    if j < ls.len() && !contains(ls[j], ")"@) {
        lemma_paren_join(ls, j + 1, full + " "@ + trim(ls[j]));
    }
}

/// A backslash-continued import list ends at or after the line it started from.
pub proof fn lemma_backslash_join(ls: Seq<Seq<char>>, j: int, full: Seq<char>)
    requires
        0 <= j <= ls.len(),
    ensures
        j <= backslash_join(ls, j, full).1 <= ls.len(),
    decreases ls.len() - j, full.len(),
{
    if full.len() > 0 && full.last() == '\\' {
        if j < ls.len() {
            lemma_backslash_join(ls, j + 1, full.drop_last() + " "@ + trim(ls[j]));
        } else {
            lemma_backslash_join(ls, j, full.drop_last());
        }
    }
}

/// Number of leading `c` of `s`.
pub open spec fn lead_count(s: Seq<char>, c: char) -> nat
    decreases s.len(),
{
    if s.len() > 0 && s[0] == c {
        1 + lead_count(s.skip(1), c)
    } else {
        0
    }
}

/// Number of trailing `c` of `s`.
pub open spec fn trail_count(s: Seq<char>, c: char) -> nat
    decreases s.len(),
{
    if s.len() > 0 && s.last() == c {
        1 + trail_count(s.drop_last(), c)
    } else {
        0
    }
}

/// The import list without its parentheses, trimmed.
pub open spec fn clean_list(full: Seq<char>) -> Seq<char> {
    let a = full.skip(lead_count(full, '(') as int);
    trim(a.take(a.len() - trail_count(a, ')')))
}

/// The name an import item binds: its alias after ` as `, else the item.
pub open spec fn bound_name(item: Seq<char>) -> Seq<char> {
    match find_from(item, " as "@, 0) {
        Some(k) => trim(item.skip(k + 4)),
        None => item,
    }
}

/// The entries for the items of an import list, in order.
pub open spec fn items_of(parts: Seq<Seq<char>>, source: Seq<char>, module: Seq<char>) -> Seq<ImportView>
    decreases parts.len(),
{
    if parts.len() == 0 {
        seq![]
    } else {
        let prev = items_of(parts.drop_last(), source, module);
        let item = trim(parts.last());
        if item.len() == 0 {
            prev
        } else {
            prev.push((bound_name(item), source, module))
        }
    }
}

/// The imports of the lines from `i` on, for module `module`.
pub open spec fn imports_from(ls: Seq<Seq<char>>, i: int, module: Seq<char>) -> Seq<ImportView>
    decreases ls.len() - i,
{
    if i < 0 || i >= ls.len() {
        seq![]
    } else {
        let t = trim(ls[i]);
        let rest = t.skip(5);
        if starts_with(t, "#"@) || t.len() == 0 || !starts_with(t, "from "@) || find_from(
            rest,
            " import "@,
            0,
        ) is None {
            imports_from(ls, i + 1, module)
        } else {
            let k = find_from(rest, " import "@, 0).unwrap();
            let source = resolved_import(trim(rest.take(k)), module);
            let part = rest.skip(k + 8);
            let p1 = if contains(part, "("@) && !contains(part, ")"@) {
                paren_join(ls, i + 1, part)
            } else {
                (part, i + 1)
            };
            let p2 = backslash_join(ls, p1.1, p1.0);
            let clean = clean_list(p2.0);
            let here = if clean == "*"@ {
                seq![]
            } else {
                items_of(split(clean, ","@), source, module)
            };
            proof {
                if contains(part, "("@) && !contains(part, ")"@) {
                    lemma_paren_join(ls, i + 1, part);
                }
                lemma_backslash_join(ls, p1.1, p1.0);
            }
            here + imports_from(ls, p2.1, module)
        }
    }
}

fn lead_count_exec(s: &Vec<char>, c: char) -> (r: usize)
    ensures
        r == lead_count(s@, c),
        r <= s.len(),
{
    let mut i: usize = 0;
    assert(s@.skip(0) =~= s@);
    while i < s.len() && s[i] == c
        invariant
            i <= s.len(),
            lead_count(s@, c) == i + lead_count(s@.skip(i as int), c),
        decreases s.len() - i,
    {
        assert(s@.skip(i as int).skip(1) =~= s@.skip(i + 1));
        i += 1;
    }
    i
}

fn trail_count_exec(s: &Vec<char>, c: char) -> (r: usize)
    ensures
        r == trail_count(s@, c),
        r <= s.len(),
{
    let mut n: usize = s.len();
    assert(s@.take(n as int) =~= s@);
    while n > 0 && s[n - 1] == c
        invariant
            n <= s.len(),
            trail_count(s@, c) == (s.len() - n) + trail_count(s@.take(n as int), c),
        decreases n,
    {
        assert(s@.take(n as int).drop_last() =~= s@.take(n - 1));
        n -= 1;
    }
    s.len() - n
}

fn clean_list_exec(full: &Vec<char>) -> (r: Vec<char>)
    ensures
        r@ == clean_list(full@),
{
    let a0 = lead_count_exec(full, '(');
    let a = slice_of(full, a0, full.len());
    assert(a@ =~= full@.skip(a0 as int));
    let t = trail_count_exec(&a, ')');
    let b = slice_of(&a, 0, a.len() - t);
    assert(b@ =~= a@.take(a.len() - t));
    trim_exec(&b)
}

fn bound_name_exec(item: &Vec<char>) -> (r: Vec<char>)
    ensures
        r@ == bound_name(item@),
{
    let sep = chars_of(" as ");
    match find_from_exec(item, &sep, 0) {
        Some(k) => {
            proof {
                reveal_strlit(" as ");
                assert(sep@.len() == 4);
                lemma_find_from(item@, sep@, 0);
                assert(crate::text::occurs_at(item@, sep@, k as int));
                assert(k + 4 <= item@.len());
            }
            let n = item.len();
            assert(k + 4 <= n);
            let rest = slice_of(item, k + 4, item.len());
            assert(rest@ =~= item@.skip(k + 4));
            trim_exec(&rest)
        },
        None => item.clone(),
    }
}

fn push_items(entries: &mut Vec<ImportEntry>, clean: &Vec<char>, source: &str, module: &str)
    ensures
        import_views(final(entries)@) == import_views(old(entries)@) + items_of(
            split(clean@, ","@),
            source@,
            module@,
        ),
{
    let comma = chars_of(",");
    proof {
        reveal_strlit(",");
    }
    let parts = split_exec(clean, &comma);
    let ghost pv = parts.deep_view();
    let ghost start = import_views(entries@);
    let mut i: usize = 0;
    while i < parts.len()
        invariant
            i <= parts.len(),
            pv == parts.deep_view(),
            pv == split(clean@, ","@),
            import_views(entries@) == start + items_of(pv.take(i as int), source@, module@),
        decreases parts.len() - i,
    {
        proof {
            lemma_chars_dv(parts@[i as int]);
            assert(pv.take(i + 1).drop_last() =~= pv.take(i as int));
            assert(pv[i as int] == parts@[i as int]@);
        }
        let item = trim_exec(&parts[i]);
        if item.len() > 0 {
            let name = bound_name_exec(&item);
            let ghost before = import_views(entries@);
            let e = ImportEntry {
                symbol: string_of(name),
                source_module: source.to_owned(),
                importing_module: module.to_owned(),
            };
            let ghost ev = (e.symbol@, e.source_module@, e.importing_module@);
            entries.push(e);
            assert(import_views(entries@) =~= before.push(ev));
        }
        i += 1;
    }
    assert(pv.take(parts.len() as int) =~= pv);
}

/// Parses the `from … import …` statements of a Python file, appending one
/// entry per imported name to `entries`.
pub fn parse_imports(content: &str, module_name: &str, entries: &mut Vec<ImportEntry>)
    ensures
        import_views(final(entries)@) == import_views(old(entries)@) + imports_from(
            lines(content@),
            0,
            module_name@,
        ),
{
    let ls = lines_exec(&chars_of(content));
    let ghost lv = ls.deep_view();
    let ghost start = import_views(entries@);
    let ghost mut got: Seq<ImportView> = seq![];
    let from_kw = chars_of("from ");
    let import_kw = chars_of(" import ");
    let hash = chars_of("#");
    let open_p = chars_of("(");
    let close_p = chars_of(")");
    let star = chars_of("*");
    proof {
        reveal_strlit("from ");
        reveal_strlit(" import ");
    }
    assert(from_kw@.len() == 5);
    assert(import_kw@.len() == 8);
    let mut i: usize = 0;
    while i < ls.len()
        invariant
            i <= ls.len(),
            lv == ls.deep_view(),
            lv == lines(content@),
            from_kw@ == "from "@,
            import_kw@ == " import "@,
            from_kw@.len() == 5,
            import_kw@.len() == 8,
            hash@ == "#"@,
            open_p@ == "("@,
            close_p@ == ")"@,
            star@ == "*"@,
            import_views(entries@) == start + got,
            imports_from(lv, 0, module_name@) == got + imports_from(lv, i as int, module_name@),
        decreases ls.len() - i,
    {
        proof {
            lemma_chars_dv(ls@[i as int]);
            assert(lv[i as int] == ls@[i as int]@);
        }
        let t = trim_exec(&ls[i]);
        let rest = if t.len() >= 5 {
            slice_of(&t, 5, t.len())
        } else {
            Vec::new()
        };
        let found = if starts_with_exec(&t, &hash) || t.len() == 0 || !starts_with_exec(&t, &from_kw) {
            None
        } else {
            assert(rest@ =~= t@.skip(5));
            find_from_exec(&rest, &import_kw, 0)
        };
        match found {
            None => {
                i += 1;
            },
            Some(k) => {
                proof {
                    assert(import_kw@.len() == 8);
                    lemma_find_from(rest@, import_kw@, 0);
                    assert(rest@ =~= t@.skip(5));
                }
                let src_text = trim_exec(&slice_of(&rest, 0, k));
                let src_s = string_of(src_text);
                let resolved = resolve_relative_import(src_s.as_str(), module_name);
                let part = slice_of(&rest, k + 8, rest.len());
                assert(part@ =~= rest@.skip(k + 8));
                let mut full = part.clone();
                let mut j: usize = i + 1;
                if contains_exec(&part, &open_p) && !contains_exec(&part, &close_p) {
                    let mut closed = false;
                    while j < ls.len() && !closed
                        invariant
                            i + 1 <= j <= ls.len(),
                            lv == ls.deep_view(),
                            close_p@ == ")"@,
                            !closed ==> paren_join(lv, i + 1, part@) == paren_join(lv, j as int, full@),
                            closed ==> paren_join(lv, i + 1, part@) == (full@, j as int),
                        decreases ls.len() - j,
                    {
                        proof {
                            lemma_chars_dv(ls@[j as int]);
                            assert(lv[j as int] == ls@[j as int]@);
                        }
                        append(&mut full, &chars_of(" "));
                        append(&mut full, &trim_exec(&ls[j]));
                        if contains_exec(&ls[j], &close_p) {
                            closed = true;
                        }
                        j += 1;
                    }
                }
                let ghost p1 = (full@, j as int);
                assert(p1 == (if contains(part@, "("@) && !contains(part@, ")"@) {
                    paren_join(lv, i + 1, part@)
                } else {
                    (part@, i + 1)
                }));
                while full.len() > 0 && full[full.len() - 1] == '\\'
                    invariant
                        i + 1 <= j <= ls.len(),
                        lv == ls.deep_view(),
                        backslash_join(lv, p1.1, p1.0) == backslash_join(lv, j as int, full@),
                    decreases ls.len() - j, full.len(),
                {
                    let ghost before = full@;
                    full.pop();
                    assert(full@ =~= before.drop_last());
                    if j < ls.len() {
                        proof {
                            lemma_chars_dv(ls@[j as int]);
                            assert(lv[j as int] == ls@[j as int]@);
                        }
                        append(&mut full, &chars_of(" "));
                        append(&mut full, &trim_exec(&ls[j]));
                        j += 1;
                    }
                }
                let clean = clean_list_exec(&full);
                let ghost here: Seq<ImportView> = if clean@ == "*"@ {
                    seq![]
                } else {
                    items_of(split(clean@, ","@), resolved@, module_name@)
                };
                if !chars_eq(&clean, &star) {
                    push_items(entries, &clean, resolved.as_str(), module_name);
                }
                proof {
                    assert(imports_from(lv, i as int, module_name@) == here + imports_from(lv, j as int, module_name@));
                    got = got + here;
                    assert(import_views(entries@) =~= start + got);
                    assert(imports_from(lv, 0, module_name@) =~= got + imports_from(lv, j as int, module_name@));
                }
                i = j;
            },
        }
    }
}

// ---------------------------------------------------------------------------
// The answer
// ---------------------------------------------------------------------------

/// A Python file found in the tree: its path (as walked from `.`) and contents.
pub struct PyFile {
    pub path: String,
    pub content: String,
}

/// The import index of the files, in order.
pub open spec fn index_of(files: Seq<PyFile>) -> Seq<ImportView>
    decreases files.len(),
{
    if files.len() == 0 {
        seq![]
    } else {
        let f = files.last();
        index_of(files.drop_last()) + imports_from(lines(f.content@), 0, module_of(f.path@))
    }
}

/// Builds the import index of the files.
pub fn build_import_index(files: &Vec<PyFile>) -> (r: Vec<ImportEntry>)
    ensures
        import_views(r@) == index_of(files@),
{
    let mut entries: Vec<ImportEntry> = Vec::new();
    let mut i: usize = 0;
    assert(import_views(entries@) =~= index_of(files@.take(0)));
    while i < files.len()
        invariant
            i <= files.len(),
            import_views(entries@) == index_of(files@.take(i as int)),
        decreases files.len() - i,
    {
        assert(files@.take(i + 1).drop_last() =~= files@.take(i as int));
        let m = file_to_module(files[i].path.as_str());
        parse_imports(files[i].content.as_str(), m.as_str(), &mut entries);
        i += 1;
    }
    assert(files@.take(files.len() as int) =~= files@);
    entries
}

/// What the tool prints: lines for stdout (patch targets) and for stderr
/// (explanations).
pub struct PatchReport {
    pub stdout: Vec<String>,
    pub stderr: Vec<String>,
}

/// The entries importing `symbol` into `target`.
pub open spec fn imports_in(v: Seq<ImportView>, target: Seq<char>, symbol: Seq<char>) -> Seq<ImportView>
    decreases v.len(),
{
    if v.len() == 0 {
        seq![]
    } else if v.last().2 == target && v.last().0 == symbol {
        imports_in(v.drop_last(), target, symbol).push(v.last())
    } else {
        imports_in(v.drop_last(), target, symbol)
    }
}

/// The entries of `target` whose source module ends with `symbol`.
pub open spec fn attribute_imports(v: Seq<ImportView>, target: Seq<char>, symbol: Seq<char>) -> Seq<ImportView>
    decreases v.len(),
{
    if v.len() == 0 {
        seq![]
    } else if v.last().2 == target && ends_with(v.last().1, symbol) {
        attribute_imports(v.drop_last(), target, symbol).push(v.last())
    } else {
        attribute_imports(v.drop_last(), target, symbol)
    }
}

/// The entries importing `symbol` anywhere.
pub open spec fn importers_of(v: Seq<ImportView>, symbol: Seq<char>) -> Seq<ImportView>
    decreases v.len(),
{
    if v.len() == 0 {
        seq![]
    } else if v.last().0 == symbol {
        importers_of(v.drop_last(), symbol).push(v.last())
    } else {
        importers_of(v.drop_last(), symbol)
    }
}

/// The stderr lines listing the modules that import `symbol`.
pub open spec fn importer_lines(v: Seq<ImportView>, symbol: Seq<char>) -> Seq<Seq<char>> {
    let found = importers_of(v, symbol);
    if found.len() == 0 {
        seq!["No modules import `"@ + symbol + "`."@]
    } else {
        seq!["Modules that import `"@ + symbol + "`:"@] + found.map_values(|e: ImportView| "  "@ + e.2 + "."@ + symbol + "  (from "@ + e.1 + ")"@)
    }
}

/// What the tool prints for `symbol` looked up in `target`.
pub open spec fn patch_report(v: Seq<ImportView>, symbol: Seq<char>, target: Seq<char>) -> (Seq<Seq<char>>, Seq<Seq<char>>) {
    let matches = imports_in(v, target, symbol);
    let patch = target + "."@ + symbol;
    if matches.len() == 0 {
        let attrs = attribute_imports(v, target, symbol);
        if attrs.len() == 0 {
            (seq![], seq![
                "Symbol `"@ + symbol + "` not found in imports of `"@ + target + "`."@,
                seq![],
                "Possible reasons:"@,
                "  - The symbol is defined in "@ + target + " itself (patch: "@ + target + "."@ + symbol + ")"@,
                "  - The symbol is imported dynamically"@,
                "  - The module path is wrong"@,
                seq![],
            ] + importer_lines(v, symbol))
        } else {
            (attrs.map_values(|e: ImportView| e.1 + "."@ + symbol), seq![
                "Symbol `"@ + symbol + "` appears to be accessed via module attribute."@,
                "In this case, patch at the source:"@,
            ])
        }
    } else if matches.len() == 1 {
        (seq![patch], seq![
            seq![],
            "# "@ + target + " imports "@ + symbol + " from "@ + matches[0].1,
            "# Correct mock.patch() target: \""@ + patch + "\""@,
            "# Wrong (would patch the source): \""@ + matches[0].1 + "."@ + symbol + "\""@,
        ])
    } else {
        (matches.map_values(|e: ImportView| patch), seq!["Multiple imports of `"@ + symbol + "` found in `"@ + target + "`:"@] + matches.map_values(|e: ImportView| "  from "@ + e.1 + " import "@ + symbol))
    }
}

/// Which entries a filter keeps.
pub enum Filter {
    /// Imports of the symbol into the target module.
    Into,
    /// Imports into the target module whose source ends with the symbol.
    Attribute,
    /// Imports of the symbol anywhere.
    Anywhere,
}

/// The entries a filter keeps, in order.
pub open spec fn filtered(v: Seq<ImportView>, f: Filter, symbol: Seq<char>, target: Seq<char>) -> Seq<ImportView> {
    match f {
        Filter::Into => imports_in(v, target, symbol),
        Filter::Attribute => attribute_imports(v, target, symbol),
        Filter::Anywhere => importers_of(v, symbol),
    }
}

fn filter_exec(v: &Vec<ImportEntry>, f: Filter, symbol: &str, target: &str) -> (r: Vec<(Vec<char>, Vec<char>, Vec<char>)>)
    ensures
        r@.map_values(|e: (Vec<char>, Vec<char>, Vec<char>)| (e.0@, e.1@, e.2@)) == filtered(import_views(v@), f, symbol@, target@),
{
    let ghost iv = import_views(v@);
    let sym = chars_of(symbol);
    let tgt = chars_of(target);
    let mut r: Vec<(Vec<char>, Vec<char>, Vec<char>)> = Vec::new();
    let mut i: usize = 0;
    while i < v.len()
        invariant
            i <= v.len(),
            iv == import_views(v@),
            sym@ == symbol@,
            tgt@ == target@,
            r@.map_values(|e: (Vec<char>, Vec<char>, Vec<char>)| (e.0@, e.1@, e.2@)) == filtered(iv.take(i as int), f, symbol@, target@),
        decreases v.len() - i,
    {
        assert(iv.take(i + 1).drop_last() =~= iv.take(i as int));
        let e = &v[i];
        let s0 = chars_of(e.symbol.as_str());
        let s1 = chars_of(e.source_module.as_str());
        let s2 = chars_of(e.importing_module.as_str());
        let keep = match f {
            Filter::Into => chars_eq(&s2, &tgt) && chars_eq(&s0, &sym),
            Filter::Attribute => chars_eq(&s2, &tgt) && ends_with_exec(&s1, &sym),
            Filter::Anywhere => chars_eq(&s0, &sym),
        };
        if keep {
            let ghost before = r@.map_values(|e: (Vec<char>, Vec<char>, Vec<char>)| (e.0@, e.1@, e.2@));
            let ghost ev = (s0@, s1@, s2@);
            r.push((s0, s1, s2));
            assert(r@.map_values(|e: (Vec<char>, Vec<char>, Vec<char>)| (e.0@, e.1@, e.2@)) =~= before.push(ev));
        }
        i += 1;
    }
    assert(iv.take(v.len() as int) =~= iv);
    r
}


fn push_str_line(out: &mut Vec<String>, m: Vec<char>)
    ensures
        final(out).deep_view() == old(out).deep_view().push(m@),
{
    let ghost before = out.deep_view();
    let ghost mv = m@;
    out.push(string_of(m));
    assert(out.deep_view() =~= before.push(mv));
}

/// Lists the modules that import `symbol` (the stderr lines).
pub fn print_all_importers(symbol: &str, index: &Vec<ImportEntry>) -> (r: Vec<String>)
    ensures
        r.deep_view() == importer_lines(import_views(index@), symbol@),
{
    let found = filter_exec(index, Filter::Anywhere, symbol, "");
    let ghost fv = found@.map_values(|e: (Vec<char>, Vec<char>, Vec<char>)| (e.0@, e.1@, e.2@));
    let mut out: Vec<String> = Vec::new();
    if found.len() == 0 {
        let mut m = chars_of("No modules import `");
        append(&mut m, &chars_of(symbol));
        append(&mut m, &chars_of("`."));
        push_str_line(&mut out, m);
        assert(out.deep_view() =~= importer_lines(import_views(index@), symbol@));
        return out;
    }
    let mut m = chars_of("Modules that import `");
    append(&mut m, &chars_of(symbol));
    append(&mut m, &chars_of("`:"));
    push_str_line(&mut out, m);
    let ghost head = out.deep_view();
    let mut i: usize = 0;
    while i < found.len()
        invariant
            i <= found.len(),
            fv == found@.map_values(|e: (Vec<char>, Vec<char>, Vec<char>)| (e.0@, e.1@, e.2@)),
            out.deep_view() == head + fv.take(i as int).map_values(|e: ImportView| "  "@ + e.2 + "."@ + symbol@ + "  (from "@ + e.1 + ")"@),
        decreases found.len() - i,
    {
        let mut l = chars_of("  ");
        append(&mut l, &found[i].2);
        append(&mut l, &chars_of("."));
        append(&mut l, &chars_of(symbol));
        append(&mut l, &chars_of("  (from "));
        append(&mut l, &found[i].1);
        append(&mut l, &chars_of(")"));
        let ghost lv = l@;
        push_str_line(&mut out, l);
        assert(fv.take(i + 1).map_values(|e: ImportView| "  "@ + e.2 + "."@ + symbol@ + "  (from "@ + e.1 + ")"@) =~= fv.take(i as int).map_values(|e: ImportView| "  "@ + e.2 + "."@ + symbol@ + "  (from "@ + e.1 + ")"@).push(lv));
        i += 1;
    }
    assert(fv.take(found.len() as int) =~= fv);
    assert(out.deep_view() =~= importer_lines(import_views(index@), symbol@));
    out
}

/// Finds where to patch `symbol` as looked up in `target_module`.
pub fn resolve_patch_path(symbol: &str, target_module: &str, index: &Vec<ImportEntry>) -> (r: PatchReport)
    ensures
        (r.stdout.deep_view(), r.stderr.deep_view()) == patch_report(import_views(index@), symbol@, target_module@),
{
    let matches = filter_exec(index, Filter::Into, symbol, target_module);
    let ghost mv = matches@.map_values(|e: (Vec<char>, Vec<char>, Vec<char>)| (e.0@, e.1@, e.2@));
    let mut stdout: Vec<String> = Vec::new();
    let mut stderr: Vec<String> = Vec::new();
    let mut patch = chars_of(target_module);
    append(&mut patch, &chars_of("."));
    append(&mut patch, &chars_of(symbol));
    if matches.len() == 0 {
        let attrs = filter_exec(index, Filter::Attribute, symbol, target_module);
        let ghost av = attrs@.map_values(|e: (Vec<char>, Vec<char>, Vec<char>)| (e.0@, e.1@, e.2@));
        if attrs.len() == 0 {
            let mut line = chars_of("Symbol `");
            append(&mut line, &chars_of(symbol));
            append(&mut line, &chars_of("` not found in imports of `"));
            append(&mut line, &chars_of(target_module));
            append(&mut line, &chars_of("`."));
            push_str_line(&mut stderr, line);
            push_str_line(&mut stderr, Vec::new());
            push_str_line(&mut stderr, chars_of("Possible reasons:"));
            let mut line = chars_of("  - The symbol is defined in ");
            append(&mut line, &chars_of(target_module));
            append(&mut line, &chars_of(" itself (patch: "));
            append(&mut line, &chars_of(target_module));
            append(&mut line, &chars_of("."));
            append(&mut line, &chars_of(symbol));
            append(&mut line, &chars_of(")"));
            push_str_line(&mut stderr, line);
            push_str_line(&mut stderr, chars_of("  - The symbol is imported dynamically"));
            push_str_line(&mut stderr, chars_of("  - The module path is wrong"));
            push_str_line(&mut stderr, Vec::new());
            let rest = print_all_importers(symbol, index);
            let ghost head = stderr.deep_view();
            let mut k: usize = 0;
            while k < rest.len()
                invariant
                    k <= rest.len(),
                    stderr.deep_view() == head + rest.deep_view().take(k as int),
                decreases rest.len() - k,
            {
                let ghost before = stderr.deep_view();
                stderr.push(rest[k].clone());
                assert(stderr.deep_view() =~= before.push(rest.deep_view()[k as int]));
                assert(rest.deep_view().take(k + 1) =~= rest.deep_view().take(k as int).push(rest.deep_view()[k as int]));
                k += 1;
            }
            assert(rest.deep_view().take(rest.len() as int) =~= rest.deep_view());
            proof {
                reveal_strlit("");
            }
            assert(stderr.deep_view() =~= patch_report(import_views(index@), symbol@, target_module@).1);
        } else {
            let mut line = chars_of("Symbol `");
            append(&mut line, &chars_of(symbol));
            append(&mut line, &chars_of("` appears to be accessed via module attribute."));
            push_str_line(&mut stderr, line);
            push_str_line(&mut stderr, chars_of("In this case, patch at the source:"));
            let mut k: usize = 0;
            while k < attrs.len()
                invariant
                    k <= attrs.len(),
                    av == attrs@.map_values(|e: (Vec<char>, Vec<char>, Vec<char>)| (e.0@, e.1@, e.2@)),
                    stdout.deep_view() == av.take(k as int).map_values(|e: ImportView| e.1 + "."@ + symbol@),
                decreases attrs.len() - k,
            {
                let mut l = attrs[k].1.clone();
                append(&mut l, &chars_of("."));
                append(&mut l, &chars_of(symbol));
                let ghost lv = l@;
                push_str_line(&mut stdout, l);
                assert(av.take(k + 1).map_values(|e: ImportView| e.1 + "."@ + symbol@) =~= av.take(k as int).map_values(|e: ImportView| e.1 + "."@ + symbol@).push(lv));
                k += 1;
            }
            assert(av.take(attrs.len() as int) =~= av);
        }
    } else if matches.len() == 1 {
        push_str_line(&mut stdout, patch.clone());
        push_str_line(&mut stderr, Vec::new());
        let src = string_of(matches[0].1.clone());
        let mut line = chars_of("# ");
        append(&mut line, &chars_of(target_module));
        append(&mut line, &chars_of(" imports "));
        append(&mut line, &chars_of(symbol));
        append(&mut line, &chars_of(" from "));
        append(&mut line, &chars_of(src.as_str()));
        push_str_line(&mut stderr, line);
        let ps = string_of(patch.clone());
        let mut line = chars_of("# Correct mock.patch() target: \"");
        append(&mut line, &chars_of(ps.as_str()));
        append(&mut line, &chars_of("\""));
        push_str_line(&mut stderr, line);
        let mut line = chars_of("# Wrong (would patch the source): \"");
        append(&mut line, &chars_of(src.as_str()));
        append(&mut line, &chars_of("."));
        append(&mut line, &chars_of(symbol));
        append(&mut line, &chars_of("\""));
        push_str_line(&mut stderr, line);
        assert(stdout.deep_view() =~= patch_report(import_views(index@), symbol@, target_module@).0);
        assert(stderr.deep_view() =~= patch_report(import_views(index@), symbol@, target_module@).1);
    } else {
        let mut line = chars_of("Multiple imports of `");
        append(&mut line, &chars_of(symbol));
        append(&mut line, &chars_of("` found in `"));
        append(&mut line, &chars_of(target_module));
        append(&mut line, &chars_of("`:"));
        push_str_line(&mut stderr, line);
        let ghost head = stderr.deep_view();
        let mut k: usize = 0;
        while k < matches.len()
            invariant
                k <= matches.len(),
                mv == matches@.map_values(|e: (Vec<char>, Vec<char>, Vec<char>)| (e.0@, e.1@, e.2@)),
                patch@ == target_module@ + "."@ + symbol@,
                stdout.deep_view() == mv.take(k as int).map_values(|e: ImportView| target_module@ + "."@ + symbol@),
                stderr.deep_view() == head + mv.take(k as int).map_values(|e: ImportView| "  from "@ + e.1 + " import "@ + symbol@),
            decreases matches.len() - k,
        {
            push_str_line(&mut stdout, patch.clone());
            let mut l = chars_of("  from ");
            append(&mut l, &matches[k].1);
            append(&mut l, &chars_of(" import "));
            append(&mut l, &chars_of(symbol));
            let ghost lv = l@;
            push_str_line(&mut stderr, l);
            assert(mv.take(k + 1).map_values(|e: ImportView| target_module@ + "."@ + symbol@) =~= mv.take(k as int).map_values(|e: ImportView| target_module@ + "."@ + symbol@).push(patch@));
            assert(mv.take(k + 1).map_values(|e: ImportView| "  from "@ + e.1 + " import "@ + symbol@) =~= mv.take(k as int).map_values(|e: ImportView| "  from "@ + e.1 + " import "@ + symbol@).push(lv));
            k += 1;
        }
        assert(mv.take(matches.len() as int) =~= mv);
    }
    PatchReport { stdout, stderr }
}

/// Answers a patchpath query over the Python files of the tree: the patch
/// target of `symbol` in `module`, or, without a module, who imports it.
pub fn run(symbol: &str, module: Option<&str>, files: &Vec<PyFile>) -> (r: PatchReport)
    ensures
        match module {
            Some(m) => (r.stdout.deep_view(), r.stderr.deep_view()) == patch_report(index_of(files@), symbol@, m@),
            None => r.stdout.deep_view() == Seq::<Seq<char>>::empty() && r.stderr.deep_view() == importer_lines(index_of(files@), symbol@),
        },
{
    let index = build_import_index(files);
    match module {
        Some(m) => resolve_patch_path(symbol, m, &index),
        None => {
            let stderr = print_all_importers(symbol, &index);
            let stdout: Vec<String> = Vec::new();
            assert(stdout.deep_view() =~= Seq::<Seq<char>>::empty());
            PatchReport { stdout, stderr }
        },
    }
}

} // verus!
