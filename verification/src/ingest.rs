//! Rows of the reflection database: the keys under which sessions, sparks
//! and preferences are stored, and what an imported snapshot contributes.
//! The caller opens the database, parses the snapshot and writes the rows.
use crate::commands::extract_handoff::{insert_sorted, insert_sorted_exec};
use crate::markdown::chars_eq;
use crate::text::{
    append, chars_of, dec, decimal, ends_with, ends_with_exec, find_from, find_from_exec,
    fit_chars, fit_chars_exec, lemma_chars_dv, lemma_find_from, slice_of, starts_with,
    starts_with_exec, string_of, trim, trim_exec,
};
use vstd::prelude::*;

verus! {

/// A spark as stored in the database.
pub struct SparkRecord {
    pub machine_id: String,
    pub text: String,
    pub project: String,
    pub session_id: String,
    pub timestamp: Option<String>,
}

/// What one ingest stored.
pub struct IngestStats {
    pub machine_id: String,
    pub sessions_ingested: usize,
    pub sparks_ingested: usize,
}

impl Default for IngestStats {
    fn default() -> (r: Self)
        ensures
            r.machine_id@ == Seq::<char>::empty(),
            r.sessions_ingested == 0,
            r.sparks_ingested == 0,
    {
        IngestStats { machine_id: String::new(), sessions_ingested: 0, sparks_ingested: 0 }
    }
}

/// `{machine_id}:{session_id}` — globally unique across users.
pub open spec fn session_key_text(machine_id: Seq<char>, session_id: Seq<char>) -> Seq<char> {
    machine_id + ":"@ + session_id
}

/// The key of a session row.
pub fn session_key(machine_id: &str, session_id: &str) -> (r: String)
    ensures
        r@ == session_key_text(machine_id@, session_id@),
{
    let mut m = chars_of(machine_id);
    append(&mut m, &chars_of(":"));
    append(&mut m, &chars_of(session_id));
    string_of(m)
}

/// `{machine_id}:{session_id}:{index}`.
pub open spec fn spark_key_text(machine_id: Seq<char>, session_id: Seq<char>, index: nat) -> Seq<char> {
    machine_id + ":"@ + session_id + ":"@ + dec(index)
}

/// The key of the `index`-th spark of a snapshot.
pub fn spark_key(machine_id: &str, session_id: &str, index: usize) -> (r: String)
    ensures
        r@ == spark_key_text(machine_id@, session_id@, index as nat),
{
    let mut m = chars_of(machine_id);
    append(&mut m, &chars_of(":"));
    append(&mut m, &chars_of(session_id));
    append(&mut m, &chars_of(":"));
    append(&mut m, &decimal(index as u64));
    string_of(m)
}

/// The decimal digits of `n`, zero-padded to at least three.
pub open spec fn dec3(n: nat) -> Seq<char> {
    let d = dec(n);
    if d.len() >= 3 {
        d
    } else {
        Seq::new((3 - d.len()) as nat, |i: int| '0') + d
    }
}

/// `{machine_id}:pref:{index:03}`.
pub open spec fn preference_key_text(machine_id: Seq<char>, index: nat) -> Seq<char> {
    machine_id + ":pref:"@ + dec3(index)
}

/// The key of the `index`-th preference of a machine.
pub fn preference_key(machine_id: &str, index: usize) -> (r: String)
    ensures
        r@ == preference_key_text(machine_id@, index as nat),
{
    let d = decimal(index as u64);
    let mut m = chars_of(machine_id);
    append(&mut m, &chars_of(":pref:"));
    let mut pad: Vec<char> = Vec::new();
    let mut k = d.len();
    while k < 3
        invariant
            d.len() <= k <= 3 || (d.len() > 3 && k == d.len()),
            pad@ == Seq::new((k - d.len()) as nat, |i: int| '0'),
        decreases 3 - k,
    {
        pad.push('0');
        assert(pad@ =~= Seq::new((k + 1 - d.len()) as nat, |i: int| '0'));
        k += 1;
    }
    if d.len() >= 3 {
        assert(pad@ =~= Seq::<char>::empty());
    }
    append(&mut m, &pad);
    append(&mut m, &d);
    proof {
        let ghost dd = dec(index as nat);
        if dd.len() >= 3 {
            assert(pad@ + dd =~= dd);
        }
    }
    string_of(m)
}

/// The keys of a machine's stored preferences: those that start with its id
/// (all of them are cleared before a resync).
pub open spec fn stale_keys(keys: Seq<Seq<char>>, machine_id: Seq<char>) -> Seq<Seq<char>>
    decreases keys.len(),
{
    if keys.len() == 0 {
        seq![]
    } else {
        let prev = stale_keys(keys.drop_last(), machine_id);
        if starts_with(keys.last(), machine_id) {
            prev.push(keys.last())
        } else {
            prev
        }
    }
}

/// The stored keys that a resync of `machine_id`'s preferences removes.
pub fn stale_preference_keys(keys: &Vec<String>, machine_id: &str) -> (r: Vec<String>)
    ensures
        r@.map_values(|s: String| s@) == stale_keys(keys@.map_values(|s: String| s@), machine_id@),
{
    let ghost ks = keys@.map_values(|s: String| s@);
    let m = chars_of(machine_id);
    let mut out: Vec<String> = Vec::new();
    let mut i: usize = 0;
    while i < keys.len()
        invariant
            i <= keys.len(),
            ks == keys@.map_values(|s: String| s@),
            m@ == machine_id@,
            out@.map_values(|s: String| s@) == stale_keys(ks.take(i as int), machine_id@),
        decreases keys.len() - i,
    {
        assert(ks.take(i + 1).drop_last() =~= ks.take(i as int));
        assert(ks.take(i + 1).last() == keys@[i as int]@);
        let k = chars_of(keys[i].as_str());
        if starts_with_exec(&k, &m) {
            let ghost before = out@.map_values(|s: String| s@);
            out.push(keys[i].clone());
            assert(out@.map_values(|s: String| s@) =~= before.push(keys@[i as int]@));
        }
        i += 1;
    }
    assert(ks.take(keys.len() as int) =~= ks);
    out
}

/// The date of a history entry: the first ten bytes of its end time.
pub open spec fn history_date_text(ended: Seq<char>) -> Seq<char> {
    ended.take(fit_chars(ended, 10) as int)
}

/// The key and date of a history entry, or `None` for an entry without a
/// session id (it is skipped).
pub fn history_row(machine_id: &str, session_id: Option<&str>, ended: Option<&str>) -> (r: Option<(String, String)>)
    ensures
        match session_id {
            Some(s) if s@.len() > 0 => r matches Some((key, date)) && key@ == session_key_text(machine_id@, s@)
                && date@ == match ended {
                    Some(e) => history_date_text(e@),
                    None => Seq::<char>::empty(),
                },
            _ => r is None,
        },
{
    match session_id {
        Some(s) => {
            let sc = chars_of(s);
            if sc.len() == 0 {
                return None;
            }
            let key = session_key(machine_id, s);
            let date = match ended {
                Some(e) => {
                    let ec = chars_of(e);
                    let (k, _) = fit_chars_exec(&ec, 10);
                    string_of(slice_of(&ec, 0, k))
                },
                None => String::new(),
            };
            Some((key, date))
        },
        None => None,
    }
}

/// Files of an export that are not session notes.
pub open spec fn skipped_file(filename: Seq<char>) -> bool {
    filename == "_legacy.md"@ || ends_with(filename, ".bak"@)
}

/// Whether an exported file is left out of an import.
pub fn skipped_import_file(filename: &str) -> (r: bool)
    ensures
        r == skipped_file(filename@),
{
    let f = chars_of(filename);
    chars_eq(&f, &chars_of("_legacy.md")) || ends_with_exec(&f, &chars_of(".bak"))
}

/// `s` with every `.md` replaced by nothing, left to right.
pub open spec fn without_md(s: Seq<char>) -> Seq<char>
    decreases s.len(),
{
    if s.len() == 0 {
        s
    } else if s.len() >= 3 && s[0] == '.' && s[1] == 'm' && s[2] == 'd' {
        without_md(s.skip(3))
    } else {
        seq![s[0]] + without_md(s.skip(1))
    }
}

/// The session id of an imported note: its frontmatter's, or else the
/// file name without `.md`.
pub fn import_session_id(frontmatter_id: Option<&str>, filename: &str) -> (r: String)
    ensures
        r@ == match frontmatter_id {
            Some(s) => s@,
            None => without_md(filename@),
        },
{
    match frontmatter_id {
        Some(s) => s.to_owned(),
        None => {
            let f = chars_of(filename);
            let mut out: Vec<char> = Vec::new();
            let mut i: usize = 0;
            assert(f@.skip(0) =~= f@);
            assert(out@ + without_md(f@) =~= without_md(f@));
            while i < f.len()
                invariant
                    i <= f.len(),
                    out@ + without_md(f@.skip(i as int)) == without_md(f@),
                decreases f.len() - i,
            {
                let ghost rest = f@.skip(i as int);
                if 3 <= f.len() - i && f[i] == '.' && f[i + 1] == 'm' && f[i + 2] == 'd' {
                    assert(rest.skip(3) =~= f@.skip(i + 3));
                    i += 3;
                } else {
                    assert(rest.skip(1) =~= f@.skip(i + 1));
                    let ghost before = out@;
                    out.push(f[i]);
                    assert(out@ + without_md(f@.skip(i + 1)) =~= before + (seq![f@[i as int]] + without_md(rest.skip(1))));
                    i += 1;
                }
            }
            assert(f@.skip(i as int) =~= Seq::<char>::empty());
            assert(out@ + Seq::<char>::empty() =~= out@);
            string_of(out)
        },
    }
}

/// An imported note's frontmatter and prose: the trimmed note must start
/// with `---`; the frontmatter runs to the next `---`, and the prose, trimmed,
/// follows it.
pub open spec fn import_note_split(content: Seq<char>) -> Option<(Seq<char>, Seq<char>)> {
    let c = trim(content);
    if !starts_with(c, "---"@) {
        None
    } else {
        let rest = c.skip(3);
        match find_from(rest, "---"@, 0) {
            Some(e) => Some((rest.take(e), trim(rest.skip(e + 3)))),
            None => None,
        }
    }
}

/// Splits an imported note into its frontmatter and its prose.
pub fn split_import_note(content: &str) -> (r: Option<(String, String)>)
    ensures
        match r {
            Some((yaml, prose)) => import_note_split(content@) == Some((yaml@, prose@)),
            None => import_note_split(content@) is None,
        },
{
    let c = trim_exec(&chars_of(content));
    let dashes = chars_of("---");
    proof {
        reveal_strlit("---");
    }
    if !starts_with_exec(&c, &dashes) {
        return None;
    }
    let rest = slice_of(&c, 3, c.len());
    assert(rest@ =~= c@.skip(3));
    match find_from_exec(&rest, &dashes, 0) {
        Some(e) => {
            proof {
                lemma_find_from(rest@, dashes@, 0);
            }
            let yaml = slice_of(&rest, 0, e);
            let prose = trim_exec(&slice_of(&rest, e + 3, rest.len()));
            assert(yaml@ =~= rest@.take(e as int));
            assert(rest@.subrange(e + 3, rest@.len() as int) =~= rest@.skip(e + 3));
            Some((string_of(yaml), string_of(prose)))
        },
        None => None,
    }
}

/// A spark of a snapshot, as far as its fields are strings.
pub struct SparkFields {
    pub text: Option<String>,
    pub project: Option<String>,
    pub session_id: Option<String>,
    pub timestamp: Option<String>,
}

/// A field's text, or `default` when it is missing.
pub open spec fn or_text(o: Option<String>, default: Seq<char>) -> Seq<char> {
    match o {
        Some(s) => s@,
        None => default,
    }
}

/// The record stored for a spark of a snapshot.
pub open spec fn spark_record_of(machine_id: Seq<char>, f: SparkFields, r: SparkRecord) -> bool {
    &&& r.machine_id@ == machine_id
    &&& r.text@ == or_text(f.text, seq![])
    &&& r.project@ == or_text(f.project, seq![])
    &&& r.session_id@ == or_text(f.session_id, "unknown"@)
    &&& match (r.timestamp, f.timestamp) {
        (Some(a), Some(b)) => a@ == b@,
        (None, None) => true,
        _ => false,
    }
}

fn text_or(o: &Option<String>, default: &str) -> (r: String)
    ensures
        r@ == match o {
            Some(s) => s@,
            None => default@,
        },
{
    match o {
        Some(s) => s.clone(),
        None => default.to_owned(),
    }
}

/// The rows a snapshot's sparks become: the `i`-th is keyed by
/// `{machine_id}:{session_id}:{i}`, its session id `unknown` when missing.
pub fn spark_rows(machine_id: &str, sparks: &Vec<SparkFields>) -> (r: Vec<(String, SparkRecord)>)
    ensures
        r.len() == sparks.len(),
        forall|i: int|
            0 <= i < r.len() ==> {
                let (key, rec) = #[trigger] r@[i];
                &&& spark_record_of(machine_id@, sparks@[i], rec)
                &&& key@ == spark_key_text(machine_id@, rec.session_id@, i as nat)
            },
{
    let mut out: Vec<(String, SparkRecord)> = Vec::new();
    let mut i: usize = 0;
    while i < sparks.len()
        invariant
            i <= sparks.len(),
            out.len() == i,
            forall|j: int|
                0 <= j < i ==> {
                    let (key, rec) = #[trigger] out@[j];
                    &&& spark_record_of(machine_id@, sparks@[j], rec)
                    &&& key@ == spark_key_text(machine_id@, rec.session_id@, j as nat)
                },
        decreases sparks.len() - i,
    {
        let f = &sparks[i];
        let sid = text_or(&f.session_id, "unknown");
        let rec = SparkRecord {
            machine_id: machine_id.to_owned(),
            text: text_or(&f.text, ""),
            project: text_or(&f.project, ""),
            session_id: sid.clone(),
            timestamp: match &f.timestamp {
                Some(t) => Some(t.clone()),
                None => None,
            },
        };
        proof {
            reveal_strlit("");
        }
        let key = spark_key(machine_id, sid.as_str(), i);
        assert(rec.session_id@ == sid@);
        assert(rec.machine_id@ == machine_id@);
        assert(rec.text@ == or_text(sparks@[i as int].text, seq![]));
        assert(rec.session_id@ == or_text(sparks@[i as int].session_id, "unknown"@));
        assert(rec.project@ == or_text(sparks@[i as int].project, seq![]));
        assert(match (rec.timestamp, sparks@[i as int].timestamp) {
            (Some(a), Some(b)) => a@ == b@,
            (None, None) => true,
            _ => false,
        });
        assert(spark_record_of(machine_id@, sparks@[i as int], rec));
        out.push((key, rec));
        i += 1;
    }
    out
}

/// The machines that own rows, sorted and each once.
pub open spec fn machines_of(ids: Seq<Seq<char>>) -> Seq<Seq<char>>
    decreases ids.len(),
{
    if ids.len() == 0 {
        seq![]
    } else {
        insert_sorted(machines_of(ids.drop_last()), ids.last())
    }
}

/// The distinct machine ids among the stored sessions, sorted.
pub fn machine_list(ids: &Vec<String>) -> (r: Vec<String>)
    ensures
        r@.map_values(|s: String| s@) == machines_of(ids@.map_values(|s: String| s@)),
{
    let ghost vs = ids@.map_values(|s: String| s@);
    let mut acc: Vec<Vec<char>> = Vec::new();
    let mut i: usize = 0;
    while i < ids.len()
        invariant
            i <= ids.len(),
            vs == ids@.map_values(|s: String| s@),
            acc.deep_view() == machines_of(vs.take(i as int)),
        decreases ids.len() - i,
    {
        assert(vs.take(i + 1).drop_last() =~= vs.take(i as int));
        insert_sorted_exec(&mut acc, chars_of(ids[i].as_str()));
        i += 1;
    }
    assert(vs.take(ids.len() as int) =~= vs);
    let mut out: Vec<String> = Vec::new();
    let mut j: usize = 0;
    while j < acc.len()
        invariant
            j <= acc.len(),
            out@.map_values(|s: String| s@) == acc.deep_view().take(j as int),
        decreases acc.len() - j,
    {
        proof {
            lemma_chars_dv(acc@[j as int]);
        }
        let ghost before = out@.map_values(|s: String| s@);
        let item = string_of(slice_of(&acc[j], 0, acc[j].len()));
        assert(acc[j as int]@.subrange(0, acc[j as int]@.len() as int) =~= acc[j as int]@);
        assert(acc.deep_view()[j as int] == acc@[j as int]@);
        assert(item@ == acc.deep_view()[j as int]);
        out.push(item);
        assert(out@.map_values(|s: String| s@) =~= before.push(item@));
        assert(out@.map_values(|s: String| s@) =~= acc.deep_view().take(j + 1));
        j += 1;
    }
    assert(acc.deep_view().take(acc.len() as int) =~= acc.deep_view());
    out
}

} // verus!
