//! A note's YAML frontmatter: parsing it into `YamlField`s (through
//! serde_yaml), and rewriting it with the known keys first in a fixed order,
//! then the others sorted by name, then the prose.
use crate::commands::extract_handoff::{lex_lt, lex_lt_exec};
use crate::markdown::{chars_eq, frontmatter_ok, frontmatter_split, split_frontmatter};
use crate::text::{
    append, chars_of, contains, find_from, join, join_exec, lemma_chars_dv, occurs_at, starts_with, string_of, trim,
    trim_exec,
};
use vstd::prelude::*;

verus! {

/// A frontmatter value as it is written back.
pub enum YamlField {
    Null,
    Bool(bool),
    /// A number, as YAML displays it.
    Number(String),
    Text(String),
    /// A sequence: its strings as they are, other items as rendered.
    List(Vec<String>),
    /// Any other value, serialized as YAML.
    Other(String),
}

/// What serde_yaml reads from a frontmatter block as a mapping from string
/// keys to values (ordered by key), each value as a `YamlField`; `None` when
/// the block is not such a mapping. Besides `serde_yaml::from_str` the name
/// covers serde_yaml's renderings of the values it converts: `Number`'s
/// display, `Value`'s debug form (for non-string list items) and
/// `serde_yaml::to_string` (for mappings and tagged values).
pub uninterp spec fn yaml_fields_of(yaml: Seq<char>) -> Option<Seq<(Seq<char>, YamlField)>>;

/// The fields by their keys' views.
pub open spec fn field_views(fs: Seq<(String, YamlField)>) -> Seq<(Seq<char>, YamlField)> {
    fs.map_values(|e: (String, YamlField)| (e.0@, e.1))
}

/// `serde_yaml::from_str` into a `BTreeMap<String, serde_yaml::Value>`, each
/// value converted variant by variant: null, booleans, numbers (as YAML
/// displays them), strings, sequences (strings as they are, other items in
/// serde_yaml's debug rendering) and anything else serialized back to YAML.
/// The contract only names the result; serde_yaml's grammar is not restated.
#[verifier::external_body]
fn yaml_fields(yaml: &str) -> (r: Option<Vec<(String, YamlField)>>)
    ensures
        match r {
            Some(fs) => yaml_fields_of(yaml@) == Some(field_views(fs@)),
            None => yaml_fields_of(yaml@) is None,
        },
{
    let map: std::collections::BTreeMap<String, serde_yaml::Value> = serde_yaml::from_str(yaml).ok()?;
    Some(map.into_iter().map(|(k, v)| (k, match v {
        serde_yaml::Value::Null => YamlField::Null,
        serde_yaml::Value::Bool(b) => YamlField::Bool(b),
        serde_yaml::Value::Number(n) => YamlField::Number(n.to_string()),
        serde_yaml::Value::String(t) => YamlField::Text(t),
        serde_yaml::Value::Sequence(q) => {
            YamlField::List(q.iter().map(|x| x.as_str().map_or_else(|| format!("{x:?}"), String::from)).collect())
        },
        other => YamlField::Other(serde_yaml::to_string(&other).unwrap_or_default()),
    })).collect())
}

/// The fields of a frontmatter block; none when it is not a mapping.
pub open spec fn block_fields(yaml: Seq<char>) -> Seq<(Seq<char>, YamlField)> {
    match yaml_fields_of(yaml) {
        Some(fs) => fs,
        None => seq![],
    }
}

/// The fields of a note's frontmatter; none without a frontmatter block.
pub open spec fn frontmatter_fields(content: Seq<char>) -> Seq<(Seq<char>, YamlField)> {
    match frontmatter_split(content).0 {
        Some(y) => block_fields(y),
        None => seq![],
    }
}

/// Parses a frontmatter block into its fields; `None` when it is not a
/// mapping of string keys.
pub fn parse_yaml_block(yaml: &str) -> (r: Option<Vec<(String, YamlField)>>)
    ensures
        match r {
            Some(fs) => yaml_fields_of(yaml@) == Some(field_views(fs@)),
            None => yaml_fields_of(yaml@) is None,
        },
{
    yaml_fields(yaml)
}

/// Parse YAML frontmatter from a markdown file: the fields of its
/// frontmatter (none when there is no block or it does not parse), and the
/// prose after it.
pub fn parse_frontmatter(content: &str) -> (r: (Vec<(String, YamlField)>, String))
    requires
        frontmatter_ok(content@),
    ensures
        field_views(r.0@) == frontmatter_fields(content@),
        r.1@ == frontmatter_split(content@).1,
{
    let (yaml, prose) = split_frontmatter(content);
    let fields = match yaml {
        Some(y) => match yaml_fields(y.as_str()) {
            Some(fs) => fs,
            None => {
                let none: Vec<(String, YamlField)> = Vec::new();
                assert(field_views(none@) =~= Seq::<(Seq<char>, YamlField)>::empty());
                none
            },
        },
        None => {
            let none: Vec<(String, YamlField)> = Vec::new();
            assert(field_views(none@) =~= Seq::<(Seq<char>, YamlField)>::empty());
            none
        },
    };
    (fields, prose)
}

/// One `key: value` line.
pub open spec fn yaml_line(key: Seq<char>, v: YamlField) -> Seq<char> {
    key + ": "@ + match v {
        YamlField::Null => "null"@,
        YamlField::Bool(b) => if b { "true"@ } else { "false"@ },
        YamlField::Number(n) => n@,
        YamlField::Text(s) => "\""@ + s@ + "\""@,
        YamlField::List(items) => "["@ + join(items@.map_values(|s: String| s@), ", "@) + "]"@,
        YamlField::Other(s) => trim(s@),
    }
}

fn yaml_line_exec(key: &str, v: &YamlField) -> (r: Vec<char>)
    ensures
        r@ == yaml_line(key@, *v),
{
    let mut m = chars_of(key);
    append(&mut m, &chars_of(": "));
    match v {
        YamlField::Null => append(&mut m, &chars_of("null")),
        YamlField::Bool(b) => if *b {
            append(&mut m, &chars_of("true"))
        } else {
            append(&mut m, &chars_of("false"))
        },
        YamlField::Number(n) => append(&mut m, &chars_of(n.as_str())),
        YamlField::Text(s) => {
            append(&mut m, &chars_of("\""));
            append(&mut m, &chars_of(s.as_str()));
            append(&mut m, &chars_of("\""));
        },
        YamlField::List(items) => {
            let mut parts: Vec<Vec<char>> = Vec::new();
            let mut i: usize = 0;
            while i < items.len()
                invariant
                    i <= items.len(),
                    parts.deep_view() == items@.map_values(|s: String| s@).take(i as int),
                decreases items.len() - i,
            {
                let c = chars_of(items[i].as_str());
                let ghost before = parts.deep_view();
                proof {
                    lemma_chars_dv(c);
                }
                let ghost cv = c@;
                parts.push(c);
                assert(parts.deep_view() =~= before.push(cv));
                assert(items@.map_values(|s: String| s@).take(i + 1) =~= items@.map_values(|s: String| s@).take(i as int).push(cv));
                i += 1;
            }
            assert(items@.map_values(|s: String| s@).take(items.len() as int) =~= items@.map_values(|s: String| s@));
            append(&mut m, &chars_of("["));
            append(&mut m, &join_exec(&parts, &chars_of(", ")));
            append(&mut m, &chars_of("]"));
        },
        YamlField::Other(s) => append(&mut m, &trim_exec(&chars_of(s.as_str()))),
    }
    m
}

/// The keys written first, in this order.
pub open spec fn key_order() -> Seq<Seq<char>> {
    seq![
        "session_id"@, "date"@, "project"@, "model"@, "engagement"@, "engagement_mode"@,
        "task_types"@, "duration_min"@, "spark_count"@, "opinion_count"@, "friction_density"@,
        "reflection_autonomy"@, "spark_density"@, "task_velocity"@,
    ]
}

fn push_key(v: &mut Vec<Vec<char>>, k: &str)
    ensures
        final(v).deep_view() == old(v).deep_view().push(k@),
{
    let c = chars_of(k);
    let ghost before = v.deep_view();
    proof {
        lemma_chars_dv(c);
    }
    v.push(c);
    assert(v.deep_view() =~= before.push(k@));
}

fn key_order_exec() -> (r: Vec<Vec<char>>)
    ensures
        r.deep_view() == key_order(),
{
    let mut keys: Vec<Vec<char>> = Vec::new();
    assert(keys.deep_view() =~= Seq::<Seq<char>>::empty());
    push_key(&mut keys, "session_id");
    push_key(&mut keys, "date");
    push_key(&mut keys, "project");
    push_key(&mut keys, "model");
    push_key(&mut keys, "engagement");
    push_key(&mut keys, "engagement_mode");
    push_key(&mut keys, "task_types");
    push_key(&mut keys, "duration_min");
    push_key(&mut keys, "spark_count");
    push_key(&mut keys, "opinion_count");
    push_key(&mut keys, "friction_density");
    push_key(&mut keys, "reflection_autonomy");
    push_key(&mut keys, "spark_density");
    push_key(&mut keys, "task_velocity");
    assert(keys.deep_view() =~= key_order());
    keys
}

/// A field as its key's text and value.
pub open spec fn field_view(f: (String, YamlField)) -> (Seq<char>, YamlField) {
    (f.0@, f.1)
}

/// The index of the field named `key`, if any.
pub open spec fn find_key(fs: Seq<(Seq<char>, YamlField)>, key: Seq<char>) -> Option<int>
    decreases fs.len(),
{
    if fs.len() == 0 {
        None
    } else if fs.last().0 == key {
        Some(fs.len() - 1)
    } else {
        find_key(fs.drop_last(), key)
    }
}

/// The lines of the known keys present, in the fixed order.
pub open spec fn known_lines(fs: Seq<(Seq<char>, YamlField)>, keys: Seq<Seq<char>>) -> Seq<Seq<char>>
    decreases keys.len(),
{
    if keys.len() == 0 {
        seq![]
    } else {
        known_lines(fs, keys.drop_last()) + match find_key(fs, keys.last()) {
            Some(i) => seq![yaml_line(keys.last(), fs[i].1)],
            None => seq![],
        }
    }
}

/// Inserts a field after every field whose key does not sort after its own.
pub open spec fn insert_by_key(l: Seq<(Seq<char>, YamlField)>, f: (Seq<char>, YamlField)) -> Seq<(Seq<char>, YamlField)>
    decreases l.len(),
{
    if l.len() == 0 {
        seq![f]
    } else if lex_lt(f.0, l[0].0) {
        seq![f] + l
    } else {
        seq![l[0]] + insert_by_key(l.skip(1), f)
    }
}

/// The fields that are no known key, sorted by key.
pub open spec fn other_fields(fs: Seq<(Seq<char>, YamlField)>) -> Seq<(Seq<char>, YamlField)>
    decreases fs.len(),
{
    if fs.len() == 0 {
        seq![]
    } else if key_order().contains(fs.last().0) {
        other_fields(fs.drop_last())
    } else {
        insert_by_key(other_fields(fs.drop_last()), fs.last())
    }
}

/// The rewritten note: known keys in order, the others by name, then the
/// prose after a blank line.
pub open spec fn rendered(fs: Seq<(Seq<char>, YamlField)>, prose: Seq<char>) -> Seq<char> {
    let lines = known_lines(fs, key_order()) + other_fields(fs).map_values(|f: (Seq<char>, YamlField)| yaml_line(f.0, f.1));
    "---\n"@ + join(lines, "\n"@) + "\n---\n"@ + if prose.len() > 0 {
        "\n"@ + prose + "\n"@
    } else {
        seq![]
    }
}

fn find_key_exec(fs: &Vec<(String, YamlField)>, key: &Vec<char>) -> (r: Option<usize>)
    ensures
        match find_key(fs@.map_values(|f: (String, YamlField)| field_view(f)), key@) {
            Some(i) => r is Some && r.unwrap() as int == i,
            None => r is None,
        },
        match r {
            Some(j) => j < fs.len(),
            None => true,
        },
{
    let ghost fv = fs@.map_values(|f: (String, YamlField)| field_view(f));
    let mut i = fs.len();
    assert(fv.take(i as int) =~= fv);
    while i > 0
        invariant
            i <= fs.len(),
            fv == fs@.map_values(|f: (String, YamlField)| field_view(f)),
            find_key(fv, key@) == find_key(fv.take(i as int), key@),
        decreases i,
    {
        assert(fv.take(i as int).drop_last() =~= fv.take(i - 1));
        if chars_eq(&chars_of(fs[i - 1].0.as_str()), key) {
            assert(fv.take(i as int).last() == field_view(fs@[i - 1]));
            return Some(i - 1);
        }
        i -= 1;
    }
    None
}

fn known_lines_exec(fs: &Vec<(String, YamlField)>) -> (r: Vec<Vec<char>>)
    ensures
        r.deep_view() == known_lines(fs@.map_values(|f: (String, YamlField)| field_view(f)), key_order()),
{
    let ghost fv = fs@.map_values(|f: (String, YamlField)| field_view(f));
    let keys = key_order_exec();
    let mut out: Vec<Vec<char>> = Vec::new();
    let mut k: usize = 0;
    while k < keys.len()
        invariant
            k <= keys.len(),
            keys.deep_view() == key_order(),
            fv == fs@.map_values(|f: (String, YamlField)| field_view(f)),
            out.deep_view() == known_lines(fv, key_order().take(k as int)),
        decreases keys.len() - k,
    {
        assert(key_order().take(k + 1).drop_last() =~= key_order().take(k as int));
        proof {
            lemma_chars_dv(keys@[k as int]);
        }
        assert(key_order().take(k + 1).last() == key_order()[k as int]);
        assert(keys.deep_view()[k as int] == keys@[k as int]@);
        let ghost kk = key_order()[k as int];
        let ghost prev = out.deep_view();
        match find_key_exec(fs, &keys[k]) {
            Some(i) => {
                assert(fv[i as int] == field_view(fs@[i as int]));
                assert(find_key(fv, kk) == Some(i as int));
                let key_s = string_of(crate::text::slice_of(&keys[k], 0, keys[k].len()));
                assert(keys@[k as int]@.subrange(0, keys@[k as int]@.len() as int) =~= keys@[k as int]@);
                let line = yaml_line_exec(key_s.as_str(), &fs[i].1);
                assert(line@ == yaml_line(kk, fv[i as int].1));
                proof {
                    lemma_chars_dv(line);
                }
                let ghost lv = line@;
                out.push(line);
                assert(out.deep_view() =~= prev + seq![lv]);
                assert(known_lines(fv, key_order().take(k + 1)) == prev + seq![lv]);
            },
            None => {
                assert(find_key(fv, kk) is None);
                assert(known_lines(fv, key_order().take(k + 1)) =~= prev);
            },
        }
        k += 1;
    }
    assert(key_order().take(keys.len() as int) =~= key_order());
    out
}

fn is_known_key(key: &Vec<char>) -> (r: bool)
    ensures
        r == key_order().contains(key@),
{
    let keys = key_order_exec();
    let mut k: usize = 0;
    while k < keys.len()
        invariant
            k <= keys.len(),
            keys.deep_view() == key_order(),
            forall|j: int| 0 <= j < k ==> key_order()[j] != key@,
        decreases keys.len() - k,
    {
        proof {
            lemma_chars_dv(keys@[k as int]);
        }
        if chars_eq(&keys[k], key) {
            assert(key_order()[k as int] == key@);
            return true;
        }
        k += 1;
    }
    false
}

fn insert_by_key_exec(l: &mut Vec<(Vec<char>, usize)>, f: (Vec<char>, usize), fv: Ghost<(Seq<char>, YamlField)>, src: Ghost<Seq<(Seq<char>, YamlField)>>)
    requires
        f.1 < src@.len(),
        src@[f.1 as int] == fv@,
        f.0@ == fv@.0,
        forall|j: int| 0 <= j < old(l)@.len() ==> #[trigger] old(l)@[j].1 < src@.len() && src@[old(l)@[j].1 as int].0 == old(l)@[j].0@,
    ensures
        final(l)@.map_values(|p: (Vec<char>, usize)| src@[p.1 as int]) == insert_by_key(old(l)@.map_values(|p: (Vec<char>, usize)| src@[p.1 as int]), fv@),
        forall|j: int| 0 <= j < final(l)@.len() ==> #[trigger] final(l)@[j].1 < src@.len() && src@[final(l)@[j].1 as int].0 == final(l)@[j].0@,
{
    let ghost lv = l@.map_values(|p: (Vec<char>, usize)| src@[p.1 as int]);
    let mut i: usize = 0;
    assert(lv.skip(0) =~= lv);
    assert(lv.take(0) + insert_by_key(lv, fv@) =~= insert_by_key(lv, fv@));
    while i < l.len()
        invariant
            i <= l.len(),
            lv == l@.map_values(|p: (Vec<char>, usize)| src@[p.1 as int]),
            l@ == old(l)@,
            f.0@ == fv@.0,
            f.1 < src@.len(),
            src@[f.1 as int] == fv@,
            forall|j: int| 0 <= j < l@.len() ==> #[trigger] l@[j].1 < src@.len() && src@[l@[j].1 as int].0 == l@[j].0@,
            insert_by_key(lv, fv@) == lv.take(i as int) + insert_by_key(lv.skip(i as int), fv@),
        decreases l.len() - i,
    {
        let ghost rest = lv.skip(i as int);
        assert(rest[0] == src@[l@[i as int].1 as int]);
        if lex_lt_exec(&f.0, &l[i].0) {
            let ghost ol = l@;
            let ghost fg = f;
            l.insert(i, f);
            assert(l@ =~= ol.take(i as int) + seq![fg] + ol.skip(i as int));
            assert(l@.map_values(|p: (Vec<char>, usize)| src@[p.1 as int]) =~= lv.take(i as int) + (seq![fv@] + rest));
            assert forall|j: int| 0 <= j < l@.len() implies #[trigger] l@[j].1 < src@.len() && src@[l@[j].1 as int].0 == l@[j].0@ by {
                if j < i {
                    assert(l@[j] == ol[j]);
                } else if j > i {
                    assert(l@[j] == ol[j - 1]);
                }
            }
            return;
        }
        assert(rest.skip(1) =~= lv.skip(i + 1));
        assert(lv.take(i as int) + (seq![rest[0]] + insert_by_key(rest.skip(1), fv@)) =~= lv.take(i + 1) + insert_by_key(lv.skip(i + 1), fv@));
        i += 1;
    }
    let ghost ol = l@;
    l.push(f);
    assert(l@.map_values(|p: (Vec<char>, usize)| src@[p.1 as int]) =~= lv.take(i as int) + seq![fv@]);
    assert forall|j: int| 0 <= j < l@.len() implies #[trigger] l@[j].1 < src@.len() && src@[l@[j].1 as int].0 == l@[j].0@ by {
        if j < ol.len() {
            assert(l@[j] == ol[j]);
        }
    }
}

/// Rewrites a note from its frontmatter fields (each key once) and prose.
pub fn render_frontmatter(fields: &Vec<(String, YamlField)>, prose: &str) -> (r: String)
    ensures
        r@ == rendered(fields@.map_values(|f: (String, YamlField)| field_view(f)), prose@),
{
    let ghost fv = fields@.map_values(|f: (String, YamlField)| field_view(f));
    let mut lines = known_lines_exec(fields);
    let ghost known = lines.deep_view();
    // The other fields, sorted by key, as (key, index) pairs.
    let mut others: Vec<(Vec<char>, usize)> = Vec::new();
    let mut i: usize = 0;
    while i < fields.len()
        invariant
            i <= fields.len(),
            fv == fields@.map_values(|f: (String, YamlField)| field_view(f)),
            others@.map_values(|p: (Vec<char>, usize)| fv[p.1 as int]) == other_fields(fv.take(i as int)),
            forall|j: int| 0 <= j < others@.len() ==> #[trigger] others@[j].1 < fv.len() && fv[others@[j].1 as int].0 == others@[j].0@,
        decreases fields.len() - i,
    {
        assert(fv.take(i + 1).drop_last() =~= fv.take(i as int));
        assert(fv.take(i + 1).last() == fv[i as int]);
        let key = chars_of(fields[i].0.as_str());
        if !is_known_key(&key) {
            insert_by_key_exec(&mut others, (key, i), Ghost(fv[i as int]), Ghost(fv));
        }
        i += 1;
    }
    assert(fv.take(fields.len() as int) =~= fv);
    let ghost ov = others@.map_values(|p: (Vec<char>, usize)| fv[p.1 as int]);
    let mut j: usize = 0;
    while j < others.len()
        invariant
            j <= others.len(),
            fv == fields@.map_values(|f: (String, YamlField)| field_view(f)),
            ov == others@.map_values(|p: (Vec<char>, usize)| fv[p.1 as int]),
            forall|k: int| 0 <= k < others@.len() ==> #[trigger] others@[k].1 < fv.len() && fv[others@[k].1 as int].0 == others@[k].0@,
            lines.deep_view() == known + ov.take(j as int).map_values(|f: (Seq<char>, YamlField)| yaml_line(f.0, f.1)),
        decreases others.len() - j,
    {
        let idx = others[j].1;
        let key_s = string_of(crate::text::slice_of(&others[j].0, 0, others[j].0.len()));
        assert(others@[j as int].0@.subrange(0, others@[j as int].0@.len() as int) =~= others@[j as int].0@);
        let line = yaml_line_exec(key_s.as_str(), &fields[idx].1);
        let ghost before = lines.deep_view();
        proof {
            lemma_chars_dv(line);
        }
        let ghost lv = line@;
        lines.push(line);
        assert(lines.deep_view() =~= before.push(lv));
        assert(ov.take(j + 1) =~= ov.take(j as int).push(ov[j as int]));
        assert(ov.take(j + 1).map_values(|f: (Seq<char>, YamlField)| yaml_line(f.0, f.1)) =~= ov.take(j as int).map_values(|f: (Seq<char>, YamlField)| yaml_line(f.0, f.1)).push(lv));
        j += 1;
    }
    assert(ov.take(others.len() as int) =~= ov);
    let mut m = chars_of("---\n");
    append(&mut m, &join_exec(&lines, &chars_of("\n")));
    append(&mut m, &chars_of("\n---\n"));
    let ghost head = m@;
    if !prose.is_empty() {
        append(&mut m, &chars_of("\n"));
        append(&mut m, &chars_of(prose));
        append(&mut m, &chars_of("\n"));
    } else {
        assert(m@ =~= head + Seq::<char>::empty());
    }
    string_of(m)
}


/// The YAML lines of a rewritten note, joined: what stands between its
/// opening and closing `---` lines.
pub open spec fn rendered_block(fs: Seq<(Seq<char>, YamlField)>) -> Seq<char> {
    join(
        known_lines(fs, key_order()) + other_fields(fs).map_values(|f: (Seq<char>, YamlField)| yaml_line(f.0, f.1)),
        "\n"@,
    )
}

/// The first occurrence of `p` at or after `i` is at `j` when it occurs
/// there and nowhere between.
proof fn lemma_find_from_at(s: Seq<char>, p: Seq<char>, i: int, j: int)
    requires
        0 <= i <= j,
        occurs_at(s, p, j),
        forall|k: int| i <= k < j ==> !occurs_at(s, p, k),
    ensures
        find_from(s, p, i) == Some(j),
    decreases j - i,
{
    if i < j {
        assert(!occurs_at(s, p, i));
        lemma_find_from_at(s, p, i + 1, j);
    }
}

/// Reading a rewritten note back splits it where it was joined: the block
/// of YAML lines, and the prose followed by a line feed, when the block
/// holds no line starting with `---` and the prose does not start with a
/// line feed.
pub proof fn law_rendered_prose_round_trip(fs: Seq<(Seq<char>, YamlField)>, prose: Seq<char>)
    requires
        !contains("\n"@ + rendered_block(fs), "\n---"@),
        prose.len() > 0,
        prose[0] != '\n',
    ensures
        frontmatter_split(rendered(fs, prose)) == (Some(rendered_block(fs)), prose + "\n"@),
{
    reveal_strlit("---\n");
    reveal_strlit("\n---\n");
    reveal_strlit("\n---");
    reveal_strlit("---");
    reveal_strlit("\n");
    let b = rendered_block(fs);
    let c = rendered(fs, prose);
    let l = b.len() as int;
    let tail = "\n"@ + prose + "\n"@;
    assert(c =~= "---\n"@ + b + "\n---\n"@ + tail);
    let nb = "\n"@ + b;
    assert forall|k: int| 3 <= k < 4 + l implies !occurs_at(c, "\n---"@, k) by {
        if occurs_at(c, "\n---"@, k) {
            if k + 4 <= 4 + l {
                assert forall|m: int| 0 <= m < 4 implies #[trigger] nb[k - 3 + m] == "\n---"@[m] by {
                    assert(nb[k - 3 + m] == c[k + m]);
                }
                assert(occurs_at(nb, "\n---"@, k - 3));
            } else {
                let m = 4 + l - k;
                assert(c[k + m] == '\n');
                assert("\n---"@[m] == '-');
            }
        }
    }
    assert forall|m: int| 0 <= m < 4 implies #[trigger] c[4 + l + m] == "\n---"@[m] by {}
    assert(occurs_at(c, "\n---"@, 4 + l));
    lemma_find_from_at(c, "\n---"@, 3, 4 + l);
    assert(starts_with(c, "---"@));
    assert(c.subrange(4, 4 + l) =~= b);
    let rest = c.skip(4 + l + 4);
    assert(rest =~= "\n"@ + tail);
    assert(rest[0] == '\n' && rest[1] == '\n' && rest[2] == prose[0]);
    assert(rest.skip(1)[0] == '\n');
    assert(rest.skip(1).skip(1) =~= rest.skip(2));
    assert(rest.skip(2)[0] == prose[0]);
    assert(crate::markdown::lead_newlines(rest.skip(2)) == 0);
    assert(crate::markdown::lead_newlines(rest.skip(1)) == 1);
    assert(crate::markdown::lead_newlines(rest) == 2);
    assert(rest.skip(2) =~= prose + "\n"@);
}
} // verus!
