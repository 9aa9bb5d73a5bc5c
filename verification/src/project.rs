//! Project identity (slugs) and the selection of durable note paragraphs.
use crate::markdown::{frontmatter_ok, prose_of, split_frontmatter};
use crate::text::{
    append, byte_len, chars_of, contains, fit_chars, fit_chars_exec, has, join,
    join_exec, lemma_chars_dv, slice_of, split, split_exec, string_of, trim, trim_exec,
};
use vstd::prelude::*;

verus! {

/// Number of trailing `'/'` characters.
pub open spec fn trailing_slashes(s: Seq<char>) -> nat
    decreases s.len(),
{
    if s.len() > 0 && s.last() == '/' {
        1 + trailing_slashes(s.drop_last())
    } else {
        0
    }
}

proof fn lemma_trailing_slashes_le(s: Seq<char>)
    ensures
        trailing_slashes(s) <= s.len(),
    decreases s.len(),
{
    if s.len() > 0 && s.last() == '/' {
        lemma_trailing_slashes_le(s.drop_last());
    }
}

/// `s.trim_end_matches('/')`.
pub open spec fn trim_end_slashes(s: Seq<char>) -> Seq<char> {
    s.take(s.len() - trailing_slashes(s))
}

/// The non-empty pieces, in order.
pub open spec fn nonempty_parts(ps: Seq<Seq<char>>) -> Seq<Seq<char>>
    decreases ps.len(),
{
    if ps.len() == 0 {
        seq![]
    } else {
        let r = nonempty_parts(ps.drop_last());
        if ps.last().len() > 0 {
            r.push(ps.last())
        } else {
            r
        }
    }
}

/// The last two path components joined by `--` (or the only one).
pub open spec fn slug_from_path_spec(path: Seq<char>) -> Seq<char> {
    if path.len() == 0 {
        seq![]
    } else {
        let parts = nonempty_parts(split(trim_end_slashes(path), "/"@));
        let n = parts.len();
        if n >= 2 {
            parts[n - 2] + "--"@ + parts[n - 1]
        } else if n == 1 {
            parts[0]
        } else {
            seq![]
        }
    }
}

/// Whether a trimmed paragraph is a durable-identity trace.
pub open spec fn is_marker_paragraph(t: Seq<char>) -> bool {
    t.len() > 0 && (contains(t, "**Opinion**"@) || contains(t, "**Surprise**"@))
}

/// The trimmed paragraphs carrying an Opinion or Surprise marker.
pub open spec fn marker_paragraphs(ps: Seq<Seq<char>>) -> Seq<Seq<char>>
    decreases ps.len(),
{
    if ps.len() == 0 {
        seq![]
    } else {
        let r = marker_paragraphs(ps.drop_last());
        if is_marker_paragraph(trim(ps.last())) {
            r.push(trim(ps.last()))
        } else {
            r
        }
    }
}

/// What `extract_marker_paragraphs` returns.
pub open spec fn marker_paragraphs_spec(prose: Seq<char>) -> Seq<char> {
    join(marker_paragraphs(split(prose, "\n\n"@)), "\n\n"@)
}

/// Last-two-path-components heuristic, joined by `--`.
/// e.g. /datar/workspace/my-project → workspace--my-project
/// Pure (no filesystem access) — used as the building block and the non-repo fallback.
pub fn slug_from_path(path: &str) -> (r: String)
    ensures
        r@ == slug_from_path_spec(path@),
{
    let p = chars_of(path);
    if p.len() == 0 {
        return string_of(Vec::new());
    }
    let mut end = p.len();
    proof {
        assert(p@.take(p.len() as int) =~= p@);
    }
    while end > 0 && p[end - 1] == '/'
        invariant
            end <= p.len(),
            trailing_slashes(p@) == (p.len() - end) + trailing_slashes(p@.take(end as int)),
        decreases end,
    {
        proof {
            assert(p@.take(end as int).drop_last() =~= p@.take(end - 1));
        }
        end -= 1;
    }
    proof {
        if end > 0 {
            assert(p@.take(end as int).last() == p@[end - 1]);
        }
    }
    let trimmed = slice_of(&p, 0, end);
    let slash = chars_of("/");
    proof {
        reveal_strlit("/");
    }
    let pieces = split_exec(&trimmed, &slash);
    let mut parts: Vec<Vec<char>> = Vec::new();
    let mut i: usize = 0;
    proof {
        assert(pieces.deep_view().take(0) =~= Seq::<Seq<char>>::empty());
        assert(parts.deep_view() =~= Seq::<Seq<char>>::empty());
    }
    while i < pieces.len()
        invariant
            i <= pieces.len(),
            parts.deep_view() == nonempty_parts(pieces.deep_view().take(i as int)),
        decreases pieces.len() - i,
    {
        let ghost before = parts.deep_view();
        proof {
            lemma_chars_dv(pieces@[i as int]);
            assert(pieces.deep_view().take(i + 1).drop_last() =~= pieces.deep_view().take(
                i as int,
            ));
            assert(pieces.deep_view().take(i + 1).last() == pieces@[i as int]@);
        }
        if pieces[i].len() > 0 {
            let e = pieces[i].clone();
            proof {
                lemma_chars_dv(e);
            }
            parts.push(e);
            assert(parts.deep_view() =~= before.push(e@));
        }
        i += 1;
    }
    proof {
        assert(pieces.deep_view().take(pieces.len() as int) =~= pieces.deep_view());
        assert(parts.deep_view().len() == parts.len());
    }
    let n = parts.len();
    if n >= 2 {
        proof {
            lemma_chars_dv(parts@[n - 2]);
            lemma_chars_dv(parts@[n - 1]);
        }
        let mut r = parts[n - 2].clone();
        crate::text::append(&mut r, &chars_of("--"));
        crate::text::append(&mut r, &parts[n - 1]);
        string_of(r)
    } else if n == 1 {
        proof {
            lemma_chars_dv(parts@[0]);
        }
        string_of(parts[0].clone())
    } else {
        string_of(Vec::new())
    }
}

/// Resolve a project slug for a directory, preferring the git repo root so all
/// subdirectories of a project map to one identity. `git_root` is the nearest
/// ancestor of `dir` (including `dir`) holding a `.git` entry, when there is one;
/// without it the slug falls back to the last-two-path-components heuristic.
pub fn slug_for_dir(dir: &str, git_root: Option<&str>) -> (r: String)
    ensures
        r@ == match git_root {
            Some(root) => slug_from_path_spec(root@),
            None => slug_from_path_spec(dir@),
        },
{
    match git_root {
        Some(root) => slug_from_path(root),
        None => slug_from_path(dir),
    }
}

/// Derive project slug from hook input, preferring the host's cwd over
/// process CWD. When `cwd` is empty the caller passes the process working
/// directory as `process_cwd`; `git_root` is the git root found above
/// whichever directory is used.
pub fn slug_from_input(cwd: &str, process_cwd: &str, git_root: Option<&str>) -> (r: String)
    ensures
        r@ == match git_root {
            Some(root) => slug_from_path_spec(root@),
            None => if cwd@.len() > 0 {
                slug_from_path_spec(cwd@)
            } else {
                slug_from_path_spec(process_cwd@)
            },
        },
{
    if cwd.is_empty() {
        slug_for_dir(process_cwd, git_root)
    } else {
        slug_for_dir(cwd, git_root)
    }
}

/// Extract paragraphs containing `**Opinion**` or `**Surprise**` markers from prose.
///
/// Paragraphs are split on blank lines (markdown paragraph boundary). Paragraphs without
/// either marker are dropped; matching paragraphs are kept verbatim and rejoined.
/// Returns an empty string when no marker paragraphs are present.
pub fn extract_marker_paragraphs(prose: &str) -> (r: String)
    ensures
        r@ == marker_paragraphs_spec(prose@),
{
    let p = chars_of(prose);
    let sep = chars_of("\n\n");
    proof {
        reveal_strlit("\n\n");
    }
    let ps = split_exec(&p, &sep);
    let mut kept: Vec<Vec<char>> = Vec::new();
    let mut i: usize = 0;
    proof {
        assert(ps.deep_view().take(0) =~= Seq::<Seq<char>>::empty());
        assert(kept.deep_view() =~= Seq::<Seq<char>>::empty());
    }
    while i < ps.len()
        invariant
            i <= ps.len(),
            kept.deep_view() == marker_paragraphs(ps.deep_view().take(i as int)),
        decreases ps.len() - i,
    {
        let ghost before = kept.deep_view();
        let t = trim_exec(&ps[i]);
        proof {
            lemma_chars_dv(ps@[i as int]);
            lemma_chars_dv(t);
            assert(ps.deep_view().take(i + 1).drop_last() =~= ps.deep_view().take(i as int));
            assert(ps.deep_view().take(i + 1).last() == ps@[i as int]@);
        }
        if t.len() > 0 && (has(&t, "**Opinion**") || has(&t, "**Surprise**")) {
            kept.push(t);
            assert(kept.deep_view() =~= before.push(t@));
        }
        i += 1;
    }
    proof {
        assert(ps.deep_view().take(ps.len() as int) =~= ps.deep_view());
    }
    string_of(join_exec(&kept, &sep))
}

/// Removing a trailing slash does not change a path's slug.
pub proof fn law_slug_ignores_trailing_slash(path: Seq<char>)
    requires
        path.len() > 0,
    ensures
        slug_from_path_spec(path.push('/')) == slug_from_path_spec(path),
{
    let q = path.push('/');
    assert(q.drop_last() =~= path);
    assert(trailing_slashes(q) == 1 + trailing_slashes(path));
    lemma_trailing_slashes_le(path);
    let k = path.len() - trailing_slashes(path);
    assert(q.len() - trailing_slashes(q) == k);
    assert(trim_end_slashes(q) == q.take(k));
    assert(q.take(k) =~= path.take(k));
}

/// A session note of a project: its contents and its frontmatter's `date`
/// (empty when it has none).
pub struct NoteFile {
    pub content: String,
    pub date: String,
}

/// Number of most-recent notes that get full-prose treatment.
pub open spec fn full_prose_notes() -> int {
    2
}

/// A curated file as a part: its heading and trimmed prose, when there is prose.
pub open spec fn curated_part(head: Seq<char>, text: Option<Seq<char>>) -> Seq<Seq<char>> {
    match text {
        Some(t) => if trim(prose_of(t)).len() > 0 {
            seq![head + trim(prose_of(t))]
        } else {
            seq![]
        },
        None => seq![],
    }
}

/// What note `idx` (newest first) contributes: the prose of the two newest
/// notes, the Opinion/Surprise paragraphs of older ones, under its date.
pub open spec fn note_body(content: Seq<char>, date: Seq<char>, idx: int) -> Seq<char> {
    let text = trim(content);
    let prose = trim(prose_of(text));
    let body = if idx < full_prose_notes() {
        prose
    } else {
        marker_paragraphs_spec(prose)
    };
    if text.len() == 0 || prose.len() == 0 || body.len() == 0 {
        seq![]
    } else if date.len() == 0 {
        body
    } else {
        "**"@ + date + "**\n\n"@ + body
    }
}

/// The note bodies of the first `n` notes, empty ones dropped.
pub open spec fn note_bodies(notes: Seq<NoteFile>, n: int) -> Seq<Seq<char>>
    decreases n,
{
    if n <= 0 || n > notes.len() {
        seq![]
    } else {
        let prev = note_bodies(notes, n - 1);
        let b = note_body(notes[n - 1].content@, notes[n - 1].date@, n - 1);
        if b.len() > 0 {
            prev.push(b)
        } else {
            prev
        }
    }
}

/// How many notes are read: only the two newest when a fresh digest is loaded.
pub open spec fn notes_read(count: int, fresh_digest: bool) -> int {
    if fresh_digest && count > full_prose_notes() {
        full_prose_notes()
    } else {
        count
    }
}

/// The parts that fit a budget of `max` bytes after `total` are spent: whole
/// notes while they fit, then the first one that does not, cut to what is
/// left with `"..."` — when more than 100 bytes are left.
pub open spec fn budgeted(bodies: Seq<Seq<char>>, total: int, max: int) -> Seq<Seq<char>>
    decreases bodies.len(),
{
    if bodies.len() == 0 {
        seq![]
    } else if total + byte_len(bodies[0]) > max {
        if max - total > 100 {
            seq![bodies[0].take(fit_chars(bodies[0], max - total) as int) + "..."@]
        } else {
            seq![]
        }
    } else {
        seq![bodies[0]] + budgeted(bodies.skip(1), total + byte_len(bodies[0]), max)
    }
}

/// The summary and digest parts, together.
pub open spec fn curated_parts(summary: Option<Seq<char>>, digest: Option<Seq<char>>) -> Seq<Seq<char>> {
    curated_part("**Project Summary**\n\n"@, summary) + curated_part("**Project Digest**\n\n"@, digest)
}

/// Bytes of all parts together.
pub open spec fn bytes_of(parts: Seq<Seq<char>>) -> int
    decreases parts.len(),
{
    if parts.len() == 0 {
        0
    } else {
        bytes_of(parts.drop_last()) + byte_len(parts.last())
    }
}

/// What `load_recent_notes` returns.
pub open spec fn recent_notes(
    summary: Option<Seq<char>>,
    digest: Option<Seq<char>>,
    notes: Seq<NoteFile>,
    max_chars: int,
) -> Seq<char> {
    let head = curated_parts(summary, digest);
    let fresh = curated_part("**Project Digest**\n\n"@, digest).len() > 0;
    let bodies = note_bodies(notes, notes_read(notes.len() as int, fresh));
    join(head + budgeted(bodies, bytes_of(head), max_chars), "\n\n---\n\n"@)
}

/// Every file the loader parses splits without cutting a character.
pub open spec fn notes_parse(summary: Option<Seq<char>>, digest: Option<Seq<char>>, notes: Seq<NoteFile>) -> bool {
    &&& (summary matches Some(t) ==> frontmatter_ok(t))
    &&& (digest matches Some(t) ==> frontmatter_ok(t))
    &&& forall|i: int| 0 <= i < notes.len() ==> frontmatter_ok(trim(#[trigger] notes[i].content@))
}

proof fn lemma_bytes_of_push(ps: Seq<Seq<char>>, x: Seq<char>)
    ensures
        bytes_of(ps.push(x)) == bytes_of(ps) + byte_len(x),
{
    assert(ps.push(x).drop_last() =~= ps);
}

proof fn lemma_bytes_of_take(ps: Seq<Seq<char>>, n: int)
    requires
        0 <= n <= ps.len(),
    ensures
        bytes_of(ps.take(n)) <= bytes_of(ps),
    decreases ps.len(),
{
    if n < ps.len() {
        lemma_bytes_of_take(ps.drop_last(), n);
        assert(ps.drop_last().take(n) =~= ps.take(n));
    } else {
        assert(ps.take(n) =~= ps);
    }
}

/// Parts that all fit are kept whole, and the rest is budgeted after them.
proof fn lemma_budgeted_prefix(seen: Seq<Seq<char>>, rest: Seq<Seq<char>>, total: int, max: int)
    requires
        total + bytes_of(seen) <= max,
    ensures
        budgeted(seen + rest, total, max) == seen + budgeted(rest, total + bytes_of(seen), max),
    decreases seen.len(),
{
    if seen.len() == 0 {
        assert(seen + rest =~= rest);
        assert(seen + budgeted(rest, total, max) =~= budgeted(rest, total, max));
    } else {
        let tail = seen.skip(1);
        assert((seen + rest).skip(1) =~= tail + rest);
        assert((seen + rest)[0] == seen[0]);
        lemma_bytes_of_front(seen);
        lemma_budgeted_prefix(tail, rest, total + byte_len(seen[0]), max);
        assert(seen + budgeted(rest, total + bytes_of(seen), max) =~= seq![seen[0]] + (tail + budgeted(rest, total + byte_len(seen[0]) + bytes_of(tail), max)));
    }
}

proof fn lemma_bytes_of_front(ps: Seq<Seq<char>>)
    requires
        ps.len() > 0,
    ensures
        bytes_of(ps) == byte_len(ps[0]) + bytes_of(ps.skip(1)),
    decreases ps.len(),
{
    if ps.len() == 1 {
        assert(ps.skip(1) =~= Seq::<Seq<char>>::empty());
        assert(ps.drop_last() =~= Seq::<Seq<char>>::empty());
    } else {
        lemma_bytes_of_front(ps.drop_last());
        assert(ps.drop_last().skip(1) =~= ps.skip(1).drop_last());
    }
}

/// The bodies of fewer notes are a prefix of the bodies of more.
proof fn lemma_note_bodies_prefix(notes: Seq<NoteFile>, n: int, m: int)
    requires
        0 <= n <= m <= notes.len(),
    ensures
        note_bodies(notes, m).len() >= note_bodies(notes, n).len(),
        note_bodies(notes, m).take(note_bodies(notes, n).len() as int) == note_bodies(notes, n),
    decreases m - n,
{
    if n < m {
        lemma_note_bodies_prefix(notes, n, m - 1);
        let a = note_bodies(notes, m - 1);
        let k = note_bodies(notes, n).len() as int;
        if note_body(notes[m - 1].content@, notes[m - 1].date@, m - 1).len() > 0 {
            assert(note_bodies(notes, m).take(k) =~= a.take(k));
        }
    }
}

fn curated_exec(parts: &mut Vec<Vec<char>>, head: &str, text: Option<&str>) -> (added: bool)
    requires
        text matches Some(t) ==> frontmatter_ok(t@),
    ensures
        final(parts).deep_view() == old(parts).deep_view() + curated_part(head@, match text {
            Some(t) => Some(t@),
            None => None,
        }),
        added == (curated_part(head@, match text {
            Some(t) => Some(t@),
            None => None,
        }).len() > 0),
{
    match text {
        Some(t) => {
            let (_, prose) = split_frontmatter(t);
            let p = trim_exec(&chars_of(prose.as_str()));
            if p.len() > 0 {
                let mut note = chars_of(head);
                append(&mut note, &p);
                let ghost before = parts.deep_view();
                proof {
                    lemma_chars_dv(note);
                }
                let ghost nv = note@;
                parts.push(note);
                assert(parts.deep_view() =~= before.push(nv));
                true
            } else {
                assert(parts.deep_view() =~= parts.deep_view() + Seq::<Seq<char>>::empty());
                false
            }
        },
        None => {
            assert(parts.deep_view() =~= parts.deep_view() + Seq::<Seq<char>>::empty());
            false
        },
    }
}

fn note_body_exec(note: &NoteFile, idx: usize) -> (r: Vec<char>)
    requires
        frontmatter_ok(trim(note.content@)),
    ensures
        r@ == note_body(note.content@, note.date@, idx as int),
{
    let text = trim_exec(&chars_of(note.content.as_str()));
    if text.len() == 0 {
        return Vec::new();
    }
    let ts = string_of(text);
    let (_, prose) = split_frontmatter(ts.as_str());
    let p = trim_exec(&chars_of(prose.as_str()));
    if p.len() == 0 {
        return Vec::new();
    }
    let body = if idx < 2 {
        p
    } else {
        let ps = string_of(p);
        chars_of(extract_marker_paragraphs(ps.as_str()).as_str())
    };
    if body.len() == 0 {
        return Vec::new();
    }
    if note.date.as_str().is_empty() {
        body
    } else {
        let mut m = chars_of("**");
        append(&mut m, &chars_of(note.date.as_str()));
        append(&mut m, &chars_of("**\n\n"));
        append(&mut m, &body);
        m
    }
}

/// Loads a project's notes for a new session: the curated summary, a fresh
/// digest, then the newest notes — the two newest in full, older ones by
/// their Opinion/Surprise paragraphs only (none of them when a fresh digest
/// was loaded) — within `max_chars` bytes.
///
/// `summary` is `_summary.md`, `digest` is `_digest.md` when it is newer than
/// the second-newest note, and `notes` are the other notes, newest first.
pub fn load_recent_notes(
    summary: Option<&str>,
    digest: Option<&str>,
    notes: &Vec<NoteFile>,
    max_chars: usize,
) -> (r: String)
    requires
        notes_parse(
            match summary {
                Some(t) => Some(t@),
                None => None,
            },
            match digest {
                Some(t) => Some(t@),
                None => None,
            },
            notes@,
        ),
    ensures
        r@ == recent_notes(
            match summary {
                Some(t) => Some(t@),
                None => None,
            },
            match digest {
                Some(t) => Some(t@),
                None => None,
            },
            notes@,
            max_chars as int,
        ),
{
    let ghost sv = match summary {
        Some(t) => Some(t@),
        None => None,
    };
    let ghost dv = match digest {
        Some(t) => Some(t@),
        None => None,
    };
    let mut parts: Vec<Vec<char>> = Vec::new();
    curated_exec(&mut parts, "**Project Summary**\n\n", summary);
    let fresh = curated_exec(&mut parts, "**Project Digest**\n\n", digest);
    let ghost head = parts.deep_view();
    assert(head =~= curated_parts(sv, dv));
    // Budget left after the curated parts, if they fit.
    let mut remaining: usize = max_chars;
    let mut over = false;
    let mut h: usize = 0;
    assert(head.take(0) =~= Seq::<Seq<char>>::empty());
    while h < parts.len()
        invariant
            h <= parts.len(),
            head == parts.deep_view(),
            !over ==> remaining + bytes_of(head.take(h as int)) == max_chars,
            over ==> bytes_of(head) > max_chars,
        decreases parts.len() - h,
    {
        proof {
            lemma_chars_dv(parts@[h as int]);
            assert(head.take(h + 1).drop_last() =~= head.take(h as int));
            assert(head[h as int] == parts@[h as int]@);
        }
        if !over {
            let (k, b) = fit_chars_exec(&parts[h], remaining);
            if k == parts[h].len() {
                proof {
                    assert(parts@[h as int]@.take(k as int) =~= parts@[h as int]@);
                }
                remaining = remaining - b;
            } else {
                proof {
                    crate::text::lemma_fit_chars(parts@[h as int]@, remaining as int);
                    crate::text::lemma_byte_len_prefix(parts@[h as int]@, k + 1);
                    lemma_bytes_of_take(head, h + 1);
                }
                over = true;
            }
        }
        h += 1;
    }
    assert(head.take(parts.len() as int) =~= head);
    let limit = if fresh && notes.len() > 2 {
        2
    } else {
        notes.len()
    };
    let ghost bodies = note_bodies(notes@, limit as int);
    let mut i: usize = 0;
    let mut done = false;
    let ghost mut seen: Seq<Seq<char>> = seq![];
    if over {
        proof {
            // The curated parts alone overrun the budget: no note is added.
            assert(budgeted(bodies, bytes_of(head), max_chars as int) =~= Seq::<Seq<char>>::empty());
            assert(head + budgeted(bodies, bytes_of(head), max_chars as int) =~= head);
        }
    } else {
        while i < limit && !done
            invariant
                i <= limit <= notes.len(),
                bodies == note_bodies(notes@, limit as int),
                notes_parse(sv, dv, notes@),
                seen == note_bodies(notes@, i as int),
                !done ==> parts.deep_view() == head + seen,
                !done ==> remaining + bytes_of(head) + bytes_of(seen) == max_chars,
                done ==> parts.deep_view() == head + budgeted(bodies, bytes_of(head), max_chars as int),
            decreases limit - i,
        {
            assert(frontmatter_ok(trim(notes@[i as int].content@)));
            let body = note_body_exec(&notes[i], i);
            proof {
                assert(note_bodies(notes@, i + 1) == (if body@.len() > 0 {
                    seen.push(body@)
                } else {
                    seen
                }));
            }
            if body.len() > 0 {
                let (k, b) = fit_chars_exec(&body, remaining);
                if k == body.len() {
                    proof {
                        assert(body@.take(k as int) =~= body@);
                        lemma_bytes_of_push(seen, body@);
                        lemma_chars_dv(body);
                    }
                    let ghost pv = parts.deep_view();
                    let ghost bv = body@;
                    parts.push(body);
                    assert(parts.deep_view() =~= pv.push(bv));
                    assert(head + seen.push(bv) =~= (head + seen).push(bv));
                    remaining = remaining - b;
                    proof {
                        seen = seen.push(bv);
                    }
                } else {
                    proof {
                        crate::text::lemma_fit_chars(body@, remaining as int);
                        crate::text::lemma_byte_len_prefix(body@, k + 1);
                        lemma_note_bodies_prefix(notes@, i + 1, limit as int);
                        let nb = note_bodies(notes@, i + 1);
                        assert(nb == seen.push(body@));
                        assert(bodies.take(nb.len() as int) == nb);
                        let n = seen.len() as int;
                        assert(bodies[n] == bodies.take(nb.len() as int)[n]);
                        assert(bodies[n] == body@);
                        let tail = bodies.skip(n);
                        assert forall|q: int| 0 <= q < n implies bodies[q] == seen[q] by {
                            assert(bodies[q] == bodies.take(nb.len() as int)[q]);
                        }
                        assert(bodies =~= seen + tail);
                        assert(tail[0] == body@);
                        lemma_budgeted_prefix(seen, tail, bytes_of(head), max_chars as int);
                    }
                    let ghost pv = parts.deep_view();
                    if remaining > 100 {
                        let mut cut = slice_of(&body, 0, k);
                        append(&mut cut, &chars_of("..."));
                        proof {
                            lemma_chars_dv(cut);
                        }
                        let ghost cv = cut@;
                        parts.push(cut);
                        assert(parts.deep_view() =~= pv.push(cv));
                        assert(head + (seen + seq![cv]) =~= pv.push(cv));
                    } else {
                        assert(head + (seen + Seq::<Seq<char>>::empty()) =~= pv);
                    }
                    done = true;
                    proof {
                        seen = seen.push(body@);
                    }
                }
            }
            i += 1;
        }
        if !done {
            proof {
                assert(seen == bodies);
                assert(bodies + Seq::<Seq<char>>::empty() =~= bodies);
                lemma_budgeted_prefix(bodies, Seq::<Seq<char>>::empty(), bytes_of(head), max_chars as int);
            }
        }
    }
    string_of(join_exec(&parts, &chars_of("\n\n---\n\n")))
}

/// Note files that cleanup never removes.
pub open spec fn kept_note_name(name: Seq<char>) -> bool {
    name == "_legacy.md"@ || name == "_summary.md"@ || name == "sessions.md"@
}

/// A file cleanup looks into: a note (`.md`, not one of the kept files) of
/// at most 500 bytes (real notes with prose are larger).
pub fn cleanup_candidate(name: &str, size: u64) -> (r: bool)
    ensures
        r == (crate::text::ends_with(name@, ".md"@) && !kept_note_name(name@) && size <= 500),
{
    let n = crate::text::chars_of(name);
    crate::text::ends_with_exec(&n, &crate::text::chars_of(".md"))
        && !(crate::markdown::chars_eq(&n, &crate::text::chars_of("_legacy.md"))
        || crate::markdown::chars_eq(&n, &crate::text::chars_of("_summary.md"))
        || crate::markdown::chars_eq(&n, &crate::text::chars_of("sessions.md"))) && size <= 500
}

/// A note is empty when its prose, trimmed, is.
pub fn is_empty_note(content: &str) -> (r: bool)
    requires
        frontmatter_ok(content@),
    ensures
        r == (crate::text::trim(prose_of(content@)).len() == 0),
{
    let (_, prose) = split_frontmatter(content);
    crate::text::trim_exec(&crate::text::chars_of(prose.as_str())).len() == 0
}

/// A note file with its modification relative to the digest.
pub struct NoteStamp {
    pub name: String,
    pub newer_than_digest: bool,
}

/// How many session notes (names not starting with `_`) are newer than the
/// digest.
pub open spec fn newer_notes(ns: Seq<NoteStamp>) -> nat
    decreases ns.len(),
{
    if ns.len() == 0 {
        0
    } else {
        newer_notes(ns.drop_last()) + if ns.last().newer_than_digest && !(ns.last().name@.len() > 0
            && ns.last().name@[0] == '_') {
            1nat
        } else {
            0nat
        }
    }
}

/// Counts the session notes written since the digest.
pub fn count_notes_after_digest(notes: &Vec<NoteStamp>) -> (r: usize)
    ensures
        r == newer_notes(notes@),
{
    let mut n: usize = 0;
    let mut i: usize = 0;
    while i < notes.len()
        invariant
            i <= notes.len(),
            n == newer_notes(notes@.take(i as int)),
            n <= i,
        decreases notes.len() - i,
    {
        assert(notes@.take(i + 1).drop_last() =~= notes@.take(i as int));
        let name = crate::text::chars_of(notes[i].name.as_str());
        if notes[i].newer_than_digest && !(name.len() > 0 && name[0] == '_') {
            n += 1;
        }
        i += 1;
    }
    assert(notes@.take(notes.len() as int) =~= notes@);
    n
}

/// Whether notes were written this session: the session's notes file has
/// prose, or else (with a known start) the journal changed since.
pub fn detect_wrote_notes(notes_content: Option<&str>, journal_changed: bool) -> (r: bool)
    requires
        notes_content matches Some(c) ==> frontmatter_ok(c@),
    ensures
        r == ((notes_content matches Some(c) && crate::text::trim(prose_of(c@)).len() > 0) || journal_changed),
{
    match notes_content {
        Some(c) => {
            if !is_empty_note(c) {
                return true;
            }
        },
        None => {},
    }
    journal_changed
}

/// Whether `load_recent_notes` may be given these files: each splits
/// without cutting a character.
pub fn notes_loadable(summary: Option<&str>, digest: Option<&str>, notes: &Vec<NoteFile>) -> (r: bool)
    ensures
        r == notes_parse(
            match summary {
                Some(t) => Some(t@),
                None => None,
            },
            match digest {
                Some(t) => Some(t@),
                None => None,
            },
            notes@,
        ),
{
    let ghost sv = match summary {
        Some(t) => Some(t@),
        None => None,
    };
    let ghost dv = match digest {
        Some(t) => Some(t@),
        None => None,
    };
    match summary {
        Some(t) => if !crate::markdown::frontmatter_ok_exec(t) {
            return false;
        },
        None => {},
    }
    match digest {
        Some(t) => if !crate::markdown::frontmatter_ok_exec(t) {
            return false;
        },
        None => {},
    }
    let mut i: usize = 0;
    while i < notes.len()
        invariant
            i <= notes.len(),
            forall|k: int| 0 <= k < i ==> frontmatter_ok(trim(#[trigger] notes@[k].content@)),
        decreases notes.len() - i,
    {
        let t = string_of(trim_exec(&chars_of(notes[i].content.as_str())));
        if !crate::markdown::frontmatter_ok_exec(t.as_str()) {
            return false;
        }
        i += 1;
    }
    assert(notes_parse(sv, dv, notes@));
    true
}

} // verus!
