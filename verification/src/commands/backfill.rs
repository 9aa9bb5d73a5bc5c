//! Backfill: lessons (`**Change**` entries) of every session note gathered
//! into the meta store, de-duplicated as at session end, sorted by time and
//! capped at the newest twenty. The caller walks the note directories.
use crate::commands::extract_handoff::{lex_lt, lex_lt_exec};
use crate::markdown::{ellipsize, ellipsize_exec, extract_changes, extract_entries_spec, real_changes};
use crate::meta::{absorb_all, absorbed, keep_last, keep_newest, marks, Lesson, MarkView};
use crate::text::{
    append, chars_of, dec, decimal, ends_with, ends_with_exec, slice_of, split, split_exec,
    starts_with, starts_with_exec, string_of, lemma_chars_dv,
};
use vstd::prelude::*;

verus! {

/// Session note files: `2026-…` dates ending in `.md`.
pub open spec fn session_note_name(name: Seq<char>) -> bool {
    ends_with(name, ".md"@) && starts_with(name, "2026-"@)
}

/// Whether a file is a session note.
pub fn is_session_note(name: &str) -> (r: bool)
    ensures
        r == session_note_name(name@),
{
    let n = chars_of(name);
    ends_with_exec(&n, &chars_of(".md")) && starts_with_exec(&n, &chars_of("2026-"))
}

/// The session id of a note's file name: the second `--` piece of the name
/// without `.md` (`2026-03-02--c254693a.md` gives `c254693a`), else
/// `unknown`.
pub open spec fn session_id_of(filename: Seq<char>) -> Seq<char> {
    if ends_with(filename, ".md"@) {
        let stem = filename.take(filename.len() - 3);
        let parts = split(stem, "--"@);
        if parts.len() > 1 {
            parts[1]
        } else {
            "unknown"@
        }
    } else {
        "unknown"@
    }
}

/// Reads the session id out of a note's file name.
pub fn extract_session_id(filename: &str) -> (r: String)
    ensures
        r@ == session_id_of(filename@),
{
    let f = chars_of(filename);
    let md = chars_of(".md");
    proof {
        reveal_strlit(".md");
        reveal_strlit("--");
    }
    if ends_with_exec(&f, &md) {
        let stem = slice_of(&f, 0, f.len() - 3);
        assert(stem@ =~= filename@.take(filename@.len() - 3));
        let parts = split_exec(&stem, &chars_of("--"));
        if parts.len() > 1 {
            proof {
                lemma_chars_dv(parts@[1]);
            }
            return string_of(slice_of(&parts[1], 0, parts[1].len()));
        }
    }
    "unknown".to_owned()
}

/// Adds the lessons of one note's prose, stamped with the note's project,
/// session and time, skipping those already held.
pub fn store_lessons(lessons: &mut Vec<Lesson>, prose: &str, project: &str, session_id: &str, timestamp: &str)
    ensures
        marks(final(lessons)@) == absorbed(
            marks(old(lessons)@),
            real_changes(extract_entries_spec(prose@, "**Change**"@, "**Change:**"@, "Change:"@)),
            project@,
            timestamp@,
            session_id@,
            false,
        ),
{
    let changes = extract_changes(prose);
    absorb_all(lessons, &changes, project, timestamp, session_id, false);
}

/// Inserts `m` after every lesson whose time does not sort after its own.
pub open spec fn insert_by_time(l: Seq<MarkView>, m: MarkView) -> Seq<MarkView>
    decreases l.len(),
{
    if l.len() == 0 {
        seq![m]
    } else if lex_lt(m.2, l[0].2) {
        seq![m] + l
    } else {
        seq![l[0]] + insert_by_time(l.skip(1), m)
    }
}

/// The lessons sorted by time (a stable sort).
pub open spec fn by_time(l: Seq<MarkView>) -> Seq<MarkView>
    decreases l.len(),
{
    if l.len() == 0 {
        seq![]
    } else {
        insert_by_time(by_time(l.drop_last()), l.last())
    }
}

fn insert_lesson(l: &mut Vec<Lesson>, e: Lesson)
    ensures
        marks(final(l)@) == insert_by_time(marks(old(l)@), (e.text@, e.project@, e.timestamp@, e.session_id@)),
{
    let ghost lv = marks(l@);
    let ghost ev: MarkView = (e.text@, e.project@, e.timestamp@, e.session_id@);
    let ts = chars_of(e.timestamp.as_str());
    let mut i: usize = 0;
    assert(lv.skip(0) =~= lv);
    assert(lv.take(0) + insert_by_time(lv, ev) =~= insert_by_time(lv, ev));
    while i < l.len()
        invariant
            i <= l.len(),
            lv == marks(l@),
            lv == marks(old(l)@),
            ts@ == ev.2,
            ev == (e.text@, e.project@, e.timestamp@, e.session_id@),
            insert_by_time(lv, ev) == lv.take(i as int) + insert_by_time(lv.skip(i as int), ev),
        decreases l.len() - i,
    {
        let ghost rest = lv.skip(i as int);
        if lex_lt_exec(&ts, &chars_of(l[i].timestamp.as_str())) {
            l.insert(i, e);
            assert(marks(l@) =~= lv.take(i as int) + (seq![ev] + rest));
            return;
        }
        assert(rest.skip(1) =~= lv.skip(i + 1));
        assert(lv.take(i as int) + (seq![rest[0]] + insert_by_time(rest.skip(1), ev)) =~= lv.take(i + 1) + insert_by_time(lv.skip(i + 1), ev));
        i += 1;
    }
    l.push(e);
    assert(marks(l@) =~= lv.take(i as int) + seq![ev]);
}

/// Sorts the lessons by time (oldest first, ties in their order) and keeps
/// the newest twenty.
pub fn sort_and_cap(lessons: Vec<Lesson>) -> (r: Vec<Lesson>)
    ensures
        marks(r@) == keep_last(by_time(marks(lessons@)), 20),
{
    let ghost lv = marks(lessons@);
    let mut out: Vec<Lesson> = Vec::new();
    let mut i: usize = 0;
    let mut pending = lessons;
    let n = pending.len();
    assert(lv.len() == n);
    assert(lv.skip(0) =~= lv);
    assert(marks(out@) =~= by_time(lv.take(0)));
    while pending.len() > 0
        invariant
            i + pending.len() == lv.len(),
            lv.len() <= usize::MAX,
            marks(pending@) == lv.skip(i as int),
            marks(out@) == by_time(lv.take(i as int)),
        decreases pending.len(),
    {
        let ghost old_p = marks(pending@);
        let e = pending.remove(0);
        assert(lv.take(i + 1).drop_last() =~= lv.take(i as int));
        assert(lv.take(i + 1).last() == lv[i as int]);
        assert(old_p[0] == lv[i as int]);
        assert(marks(pending@) =~= old_p.skip(1));
        assert(old_p.skip(1) =~= lv.skip(i + 1));
        insert_lesson(&mut out, e);
        i += 1;
    }
    assert(lv.take(i as int) =~= lv);
    keep_newest(&mut out, 20);
    assert(marks(out@) =~= keep_last(by_time(lv), 20));
    out
}

/// A lesson as listed: `  [project] text`, the text cut to 100 bytes.
pub open spec fn lesson_line_text(project: Seq<char>, text: Seq<char>) -> Seq<char> {
    "  ["@ + project + "] "@ + ellipsize(text, 100)
}

/// Lists one lesson.
pub fn lesson_line(lesson: &Lesson) -> (r: String)
    ensures
        r@ == lesson_line_text(lesson.project@, lesson.text@),
{
    let mut m = chars_of("  [");
    append(&mut m, &chars_of(lesson.project.as_str()));
    append(&mut m, &chars_of("] "));
    append(&mut m, &ellipsize_exec(chars_of(lesson.text.as_str()), 100));
    string_of(m)
}

/// The closing summary of a backfill.
pub open spec fn summary_text(scanned: nat, added: nat, total: nat) -> Seq<char> {
    "backfill: scanned "@ + dec(scanned) + " files, added "@ + dec(added) + " lessons (total: "@ + dec(total) + ")"@
}

/// Reports a backfill: files scanned, lessons added and held (`total` is
/// at least `before`, as lessons are only ever added before the cap).
pub fn summary(scanned: u32, before: usize, total: usize) -> (r: String)
    requires
        before <= total,
    ensures
        r@ == summary_text(scanned as nat, (total - before) as nat, total as nat),
{
    let mut m = chars_of("backfill: scanned ");
    append(&mut m, &decimal(scanned as u64));
    append(&mut m, &chars_of(" files, added "));
    append(&mut m, &decimal((total - before) as u64));
    append(&mut m, &chars_of(" lessons (total: "));
    append(&mut m, &decimal(total as u64));
    append(&mut m, &chars_of(")"));
    string_of(m)
}

} // verus!
