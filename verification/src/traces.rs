//! Append-only trace files for the cognitive ecology.
//!
//! Each trace (spark, opinion, surprise, friction, lesson, aversion) is stored
//! as its own Markdown file with YAML frontmatter. No shared mutable state —
//! several sessions can write at once without data races. The caller reads
//! and writes the files; their names, contents and selection are made here.
use crate::commands::extract_handoff::{lex_lt, lex_lt_exec};
use crate::markdown::chars_eq;
use crate::text::{
    append, byte_len, chars_of, fit_chars, fit_chars_exec, slice_of, string_of,
    trim, trim_exec, utf8_width, utf8_width_exec,
};
use vstd::prelude::*;

verus! {

/// A parsed trace entry from a trace file.
pub struct TraceEntry {
    pub trace_type: String,
    pub text: String,
    pub project: String,
    pub timestamp: String,
    pub session_id: String,
    pub category: Option<String>,
}

/// The longest suffix of `s` within `n` bytes.
pub open spec fn tail_within(s: Seq<char>, n: int) -> Seq<char>
    decreases s.len(),
{
    if s.len() == 0 || utf8_width(s.last()) > n {
        seq![]
    } else {
        tail_within(s.drop_last(), n - utf8_width(s.last())).push(s.last())
    }
}

/// The project as it appears in a file name: its last 30 bytes.
pub open spec fn project_short(project: Seq<char>) -> Seq<char> {
    if byte_len(project) > 30 {
        tail_within(project, 30)
    } else {
        project
    }
}

/// The session id as it appears in a file name: its first 8 bytes.
pub open spec fn session_short(session_id: Seq<char>) -> Seq<char> {
    session_id.take(fit_chars(session_id, 8) as int)
}

/// `{type}--{time}--{project}--{session}.md`.
pub open spec fn trace_file_name_text(
    trace_type: Seq<char>,
    time: Seq<char>,
    project: Seq<char>,
    session_id: Seq<char>,
) -> Seq<char> {
    trace_type + "--"@ + time + "--"@ + project_short(project) + "--"@ + session_short(session_id)
        + ".md"@
}

fn tail_within_exec(s: &Vec<char>, n: usize) -> (r: Vec<char>)
    ensures
        r@ == tail_within(s@, n as int),
{
    // Walk back while the characters fit.
    let mut k = s.len();
    let mut left = n;
    assert(s@.take(k as int) =~= s@);
    assert(tail_within(s@, n as int) + s@.skip(k as int) =~= tail_within(s@, n as int));
    while k > 0 && utf8_width_exec(s[k - 1]) <= left
        invariant
            k <= s.len(),
            left <= n,
            tail_within(s@, n as int) == tail_within(s@.take(k as int), left as int) + s@.skip(k as int),
        decreases k,
    {
        let w = utf8_width_exec(s[k - 1]);
        proof {
            let t = s@.take(k as int);
            assert(t.drop_last() =~= s@.take(k - 1));
            assert(t.last() == s@[k - 1]);
            assert(seq![s@[k - 1]] + s@.skip(k as int) =~= s@.skip(k - 1));
            assert(tail_within(t, left as int) == tail_within(s@.take(k - 1), left - w).push(s@[k - 1]));
            assert(tail_within(s@.take(k - 1), left - w).push(s@[k - 1]) + s@.skip(k as int) =~= tail_within(s@.take(k - 1), left - w) + s@.skip(k - 1));
        }
        left = left - w;
        k -= 1;
    }
    proof {
        if k > 0 {
            assert(tail_within(s@.take(k as int), left as int) =~= Seq::<char>::empty());
        } else {
            assert(s@.take(0) =~= Seq::<char>::empty());
        }
        assert(Seq::<char>::empty() + s@.skip(k as int) =~= s@.skip(k as int));
    }
    let r = slice_of(s, k, s.len());
    assert(r@ =~= s@.skip(k as int));
    r
}

/// Names a trace's file: `{type}--{time}--{project_short}--{session_short}.md`,
/// where `time` is the creation time formatted for file names.
pub fn trace_file_name(trace_type: &str, time: &str, project: &str, session_id: &str) -> (r: String)
    ensures
        r@ == trace_file_name_text(trace_type@, time@, project@, session_id@),
{
    let p = chars_of(project);
    let (fits30, _) = fit_chars_exec(&p, 30);
    let proj = if fits30 < p.len() {
        proof {
            crate::text::lemma_fit_chars(p@, 30);
            crate::text::lemma_byte_len_prefix(p@, fits30 + 1);
        }
        tail_within_exec(&p, 30)
    } else {
        proof {
            crate::text::lemma_fit_chars(p@, 30);
            assert(p@.take(fits30 as int) =~= p@);
        }
        p
    };
    let sid = chars_of(session_id);
    let (k, _) = fit_chars_exec(&sid, 8);
    let mut m = chars_of(trace_type);
    append(&mut m, &chars_of("--"));
    append(&mut m, &chars_of(time));
    append(&mut m, &chars_of("--"));
    append(&mut m, &proj);
    append(&mut m, &chars_of("--"));
    append(&mut m, &slice_of(&sid, 0, k));
    append(&mut m, &chars_of(".md"));
    string_of(m)
}

/// The contents of a trace file: its frontmatter (type, project, timestamp,
/// session id, and category when given), a blank line, and the text.
pub open spec fn trace_document_text(
    trace_type: Seq<char>,
    text: Seq<char>,
    project: Seq<char>,
    timestamp: Seq<char>,
    session_id: Seq<char>,
    category: Option<Seq<char>>,
) -> Seq<char> {
    "---\ntype: \""@ + trace_type + "\"\nproject: \""@ + project + "\"\ntimestamp: \""@ + timestamp
        + "\"\nsession_id: \""@ + session_id + "\""@ + (match category {
        Some(c) => "\ncategory: \""@ + c + "\""@,
        None => seq![],
    }) + "\n---\n\n"@ + text + "\n"@
}

/// Writes out a trace file's contents.
pub fn trace_document(
    trace_type: &str,
    text: &str,
    project: &str,
    timestamp: &str,
    session_id: &str,
    category: Option<&str>,
) -> (r: String)
    ensures
        r@ == trace_document_text(
            trace_type@,
            text@,
            project@,
            timestamp@,
            session_id@,
            match category {
                Some(c) => Some(c@),
                None => None,
            },
        ),
{
    let mut m = chars_of("---\ntype: \"");
    append(&mut m, &chars_of(trace_type));
    append(&mut m, &chars_of("\"\nproject: \""));
    append(&mut m, &chars_of(project));
    append(&mut m, &chars_of("\"\ntimestamp: \""));
    append(&mut m, &chars_of(timestamp));
    append(&mut m, &chars_of("\"\nsession_id: \""));
    append(&mut m, &chars_of(session_id));
    append(&mut m, &chars_of("\""));
    let ghost head = m@;
    match category {
        Some(c) => {
            append(&mut m, &chars_of("\ncategory: \""));
            append(&mut m, &chars_of(c));
            append(&mut m, &chars_of("\""));
        },
        None => {
            assert(m@ =~= head + Seq::<char>::empty());
        },
    }
    append(&mut m, &chars_of("\n---\n\n"));
    append(&mut m, &chars_of(text));
    append(&mut m, &chars_of("\n"));
    string_of(m)
}

/// A trace file's frontmatter fields, as far as they are strings.
pub struct TraceFields {
    pub trace_type: Option<String>,
    pub project: Option<String>,
    pub timestamp: Option<String>,
    pub session_id: Option<String>,
    pub category: Option<String>,
}

/// A string field, or empty.
pub open spec fn or_empty(f: Option<String>) -> Seq<char> {
    match f {
        Some(s) => s@,
        None => seq![],
    }
}

/// Builds the entry of a trace file from its frontmatter fields and prose:
/// none without a type or without text.
pub fn parse_trace(fields: &TraceFields, prose: &str) -> (r: Option<TraceEntry>)
    ensures
        match r {
            Some(e) => fields.trace_type is Some && trim(prose@).len() > 0 && e.trace_type@
                == fields.trace_type.unwrap()@ && e.text@ == trim(prose@) && e.project@ == or_empty(
                fields.project,
            ) && e.timestamp@ == or_empty(fields.timestamp) && e.session_id@ == or_empty(
                fields.session_id,
            ) && e.category == fields.category,
            None => fields.trace_type is None || trim(prose@).len() == 0,
        },
{
    let trace_type = match &fields.trace_type {
        Some(t) => t.clone(),
        None => {
            return None;
        },
    };
    let text = trim_exec(&chars_of(prose));
    if text.len() == 0 {
        return None;
    }
    let project = match &fields.project {
        Some(p) => p.clone(),
        None => String::new(),
    };
    let timestamp = match &fields.timestamp {
        Some(p) => p.clone(),
        None => String::new(),
    };
    let session_id = match &fields.session_id {
        Some(p) => p.clone(),
        None => String::new(),
    };
    let category = match &fields.category {
        Some(c) => Some(c.clone()),
        None => None,
    };
    Some(TraceEntry { trace_type, text: string_of(text), project, timestamp, session_id, category })
}

/// The entry passes the type and project filters.
pub open spec fn passes(e: TraceEntry, type_filter: Option<Seq<char>>, project_filter: Option<Seq<char>>) -> bool {
    &&& (type_filter matches Some(t) ==> e.trace_type@ == t)
    &&& (project_filter matches Some(p) ==> e.project@ == p)
}

/// Inserts `e` after every entry whose timestamp does not sort after its own.
pub open spec fn insert_by_time(l: Seq<TraceEntry>, e: TraceEntry) -> Seq<TraceEntry>
    decreases l.len(),
{
    if l.len() == 0 {
        seq![e]
    } else if lex_lt(e.timestamp@, l[0].timestamp@) {
        seq![e] + l
    } else {
        seq![l[0]] + insert_by_time(l.skip(1), e)
    }
}

/// The entries that pass the filters, sorted by timestamp (oldest first,
/// a stable sort).
pub open spec fn selected(
    es: Seq<TraceEntry>,
    type_filter: Option<Seq<char>>,
    project_filter: Option<Seq<char>>,
) -> Seq<TraceEntry>
    decreases es.len(),
{
    if es.len() == 0 {
        seq![]
    } else {
        let prev = selected(es.drop_last(), type_filter, project_filter);
        if passes(es.last(), type_filter, project_filter) {
            insert_by_time(prev, es.last())
        } else {
            prev
        }
    }
}

fn insert_by_time_exec(l: &mut Vec<TraceEntry>, e: TraceEntry)
    ensures
        final(l)@ == insert_by_time(old(l)@, e),
{
    let ghost lv = l@;
    let ts = chars_of(e.timestamp.as_str());
    let mut i: usize = 0;
    assert(lv.skip(0) =~= lv);
    assert(lv.take(0) + insert_by_time(lv, e) =~= insert_by_time(lv, e));
    while i < l.len()
        invariant
            i <= l.len(),
            lv == l@,
            lv == old(l)@,
            ts@ == e.timestamp@,
            insert_by_time(lv, e) == lv.take(i as int) + insert_by_time(lv.skip(i as int), e),
        decreases l.len() - i,
    {
        let ghost rest = lv.skip(i as int);
        if lex_lt_exec(&ts, &chars_of(l[i].timestamp.as_str())) {
            l.insert(i, e);
            assert(l@ =~= lv.take(i as int) + (seq![e] + rest));
            return;
        }
        assert(rest.skip(1) =~= lv.skip(i + 1));
        assert(lv.take(i as int) + (seq![rest[0]] + insert_by_time(rest.skip(1), e)) =~= lv.take(i + 1) + insert_by_time(lv.skip(i + 1), e));
        i += 1;
    }
    l.push(e);
    assert(l@ =~= lv.take(i as int) + seq![e]);
}

/// Keeps the traces that pass the type and project filters, sorted by
/// timestamp (oldest first — newest last for display).
pub fn select_traces(
    entries: Vec<TraceEntry>,
    type_filter: Option<&str>,
    project_filter: Option<&str>,
) -> (r: Vec<TraceEntry>)
    ensures
        r@ == selected(
            entries@,
            match type_filter {
                Some(t) => Some(t@),
                None => None,
            },
            match project_filter {
                Some(p) => Some(p@),
                None => None,
            },
        ),
{
    let ghost tf = match type_filter {
        Some(t) => Some(t@),
        None => None,
    };
    let ghost pf = match project_filter {
        Some(p) => Some(p@),
        None => None,
    };
    let ghost es = entries@;
    let mut out: Vec<TraceEntry> = Vec::new();
    let mut rest = entries;
    // Move the entries out in order.
    let mut items: Vec<TraceEntry> = Vec::new();
    while rest.len() > 0
        invariant
            items@ + rest@ == es,
        decreases rest.len(),
    {
        let e = rest.remove(0);
        items.push(e);
        assert(items@ + rest@ =~= es);
    }
    assert(items@ =~= es);
    let mut i: usize = 0;
    while i < items.len()
        invariant
            i <= items.len(),
            items@ == es,
            out@ == selected(es.take(i as int), tf, pf),
            tf == match type_filter {
                Some(t) => Some(t@),
                None => None,
            },
            pf == match project_filter {
                Some(p) => Some(p@),
                None => None,
            },
        decreases items.len() - i,
    {
        assert(es.take(i + 1).drop_last() =~= es.take(i as int));
        assert(es.take(i + 1).last() == es[i as int]);
        let keep_type = match type_filter {
            Some(t) => chars_eq(&chars_of(items[i].trace_type.as_str()), &chars_of(t)),
            None => true,
        };
        let keep_project = match project_filter {
            Some(p) => chars_eq(&chars_of(items[i].project.as_str()), &chars_of(p)),
            None => true,
        };
        if keep_type && keep_project {
            let e = TraceEntry {
                trace_type: items[i].trace_type.clone(),
                text: items[i].text.clone(),
                project: items[i].project.clone(),
                timestamp: items[i].timestamp.clone(),
                session_id: items[i].session_id.clone(),
                category: match &items[i].category {
                    Some(c) => Some(c.clone()),
                    None => None,
                },
            };
            assert(e == items@[i as int]);
            insert_by_time_exec(&mut out, e);
        }
        i += 1;
    }
    assert(es.take(items.len() as int) =~= es);
    out
}

} // verus!
