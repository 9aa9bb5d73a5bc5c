//! Sigils: an intention compressed to the unique letters it contains.
use crate::commands::extract_handoff::{lex_lt, lex_lt_exec};
use crate::text::{append, chars_of, ends_with, ends_with_exec, join, join_exec, lemma_chars_dv, string_of};
use vstd::prelude::*;

verus! {

/// ASCII letter.
pub open spec fn is_ascii_letter(c: char) -> bool {
    ('a' <= c && c <= 'z') || ('A' <= c && c <= 'Z')
}

/// `char::to_ascii_uppercase`.
pub open spec fn ascii_upper(c: char) -> char {
    if 'a' <= c && c <= 'z' {
        ((c as u32 - 32) as u8) as char
    } else {
        c
    }
}

/// The unique upper-cased ASCII letters of `s`, in order of first appearance.
pub open spec fn compress_spec(s: Seq<char>) -> Seq<char>
    decreases s.len(),
{
    if s.len() == 0 {
        seq![]
    } else {
        let acc = compress_spec(s.drop_last());
        let c = s.last();
        if is_ascii_letter(c) && !acc.contains(ascii_upper(c)) {
            acc.push(ascii_upper(c))
        } else {
            acc
        }
    }
}

/// `c.to_ascii_uppercase()` for ASCII letters.
fn upper_exec(c: char) -> (r: char)
    requires
        is_ascii_letter(c),
    ensures
        r == ascii_upper(c),
{
    if 'a' <= c && c <= 'z' {
        let b = c as u8;
        (b - 32) as char
    } else {
        c
    }
}

/// Whether `v` holds `c`.
fn holds_char(v: &Vec<char>, c: char) -> (r: bool)
    ensures
        r == v@.contains(c),
{
    let mut i: usize = 0;
    while i < v.len()
        invariant
            i <= v.len(),
            forall|k: int| 0 <= k < i ==> v@[k] != c,
        decreases v.len() - i,
    {
        if v[i] == c {
            return true;
        }
        i += 1;
    }
    false
}

/// Compress an intention into unique uppercase letters, preserving order of first appearance.
pub fn compress(intention: &str) -> (r: String)
    ensures
        r@ == compress_spec(intention@),
{
    let s = chars_of(intention);
    let mut result: Vec<char> = Vec::new();
    let mut i: usize = 0;
    proof {
        assert(s@.take(0) =~= Seq::<char>::empty());
    }
    while i < s.len()
        invariant
            i <= s.len(),
            result@ == compress_spec(s@.take(i as int)),
        decreases s.len() - i,
    {
        let ch = s[i];
        proof {
            assert(s@.take(i + 1).drop_last() =~= s@.take(i as int));
            assert(s@.take(i + 1).last() == ch);
        }
        if ('a' <= ch && ch <= 'z') || ('A' <= ch && ch <= 'Z') {
            let up = upper_exec(ch);
            if !holds_char(&result, up) {
                result.push(up);
            }
        }
        i += 1;
    }
    proof {
        assert(s@.take(s.len() as int) =~= s@);
    }
    string_of(result)
}

/// Upper-case ASCII letter.
pub open spec fn is_upper_letter(c: char) -> bool {
    65 <= (c as u32) && (c as u32) <= 90
}

/// The glyph holds only upper-case letters, each at most once.
pub proof fn law_compress_letters_unique(s: Seq<char>)
    ensures
        forall|i: int| 0 <= i < compress_spec(s).len() ==> is_upper_letter(
            #[trigger] compress_spec(s)[i],
        ),
        forall|i: int, j: int|
            0 <= i < j < compress_spec(s).len() ==> compress_spec(s)[i] != compress_spec(s)[j],
    decreases s.len(),
{
    if s.len() > 0 {
        let acc = compress_spec(s.drop_last());
        law_compress_letters_unique(s.drop_last());
        let c = s.last();
        if is_ascii_letter(c) && !acc.contains(ascii_upper(c)) {
            let u = ascii_upper(c);
            lemma_upper_letter(c);
            let r = acc.push(u);
            assert(compress_spec(s) == r);
            assert forall|i: int, j: int| 0 <= i < j < r.len() implies r[i] != r[j] by {
                if j == r.len() - 1 {
                    assert(r[j] == u);
                    assert(r[i] == acc[i]);
                    if acc[i] == u {
                        assert(acc.contains(u));
                    }
                }
            }
        }
    }
}

proof fn lemma_upper_letter(c: char)
    requires
        is_ascii_letter(c),
    ensures
        is_upper_letter(ascii_upper(c)),
{
    let x = c as u32;
    if 97 <= x && x <= 122 {
        let b = (x - 32) as u8;
        assert(b == x - 32);
        assert((b as char) as u32 == b as u32);
    }
}

proof fn lemma_compress_fixed(t: Seq<char>)
    requires
        forall|i: int| 0 <= i < t.len() ==> is_upper_letter(#[trigger] t[i]),
        forall|i: int, j: int| 0 <= i < j < t.len() ==> t[i] != t[j],
    ensures
        compress_spec(t) == t,
    decreases t.len(),
{
    if t.len() > 0 {
        let d = t.drop_last();
        lemma_compress_fixed(d);
        let c = t.last();
        assert(ascii_upper(c) == c);
        assert(!d.contains(c)) by {
            if d.contains(c) {
                let k = choose|k: int| 0 <= k < d.len() && d[k] == c;
                assert(t[k] == t[t.len() - 1]);
            }
        }
        assert(d.push(c) =~= t);
    }
}

/// Compressing a glyph again leaves it unchanged.
pub proof fn law_compress_idempotent(s: Seq<char>)
    ensures
        compress_spec(compress_spec(s)) == compress_spec(s),
{
    law_compress_letters_unique(s);
    lemma_compress_fixed(compress_spec(s));
}

proof fn lemma_char_code(c: char)
    ensures
        (c as u32) as int == c as int,
{
}

/// A glyph has at most 26 letters.
pub proof fn law_compress_at_most_26(s: Seq<char>)
    ensures
        compress_spec(s).len() <= 26,
{
    law_compress_letters_unique(s);
    let t = compress_spec(s);
    let u = t.map_values(|c: char| c as int);
    assert(u.no_duplicates()) by {
        assert forall|i: int, j: int| 0 <= i < u.len() && 0 <= j < u.len() && i != j implies u[i] != u[j] by {
            if i < j {
                assert(t[i] != t[j]);
            } else {
                assert(t[j] != t[i]);
            }
        }
    }
    u.unique_seq_to_set();
    vstd::set_lib::lemma_int_range(65, 91);
    assert(u.to_set().subset_of(vstd::set_lib::set_int_range(65, 91))) by {
        assert forall|x: int| u.to_set().contains(x) implies vstd::set_lib::set_int_range(65, 91).contains(x) by {
            assert(u.contains(x));
            let k = choose|k: int| 0 <= k < u.len() && u[k] == x;
            assert(is_upper_letter(t[k]));
            assert(x == t[k] as int);
            lemma_char_code(t[k]);
        }
    }
    vstd::set_lib::lemma_len_subset(u.to_set(), vstd::set_lib::set_int_range(65, 91));
}

/// A new sigil's file: its intention, glyph, empty resonance and creation time.
pub open spec fn sigil_document_text(intention: Seq<char>, compressed: Seq<char>, created: Seq<char>) -> Seq<char> {
    "---\nintention: \""@ + intention + "\"\ncompressed: \""@ + compressed + "\"\nresonance: \"\"\ncreated: \""@
        + created + "\"\n---\n"@
}

/// Writes a new sigil's file.
pub fn sigil_document(intention: &str, compressed: &str, created: &str) -> (r: String)
    ensures
        r@ == sigil_document_text(intention@, compressed@, created@),
{
    let mut m = chars_of("---\nintention: \"");
    append(&mut m, &chars_of(intention));
    append(&mut m, &chars_of("\"\ncompressed: \""));
    append(&mut m, &chars_of(compressed));
    append(&mut m, &chars_of("\"\nresonance: \"\"\ncreated: \""));
    append(&mut m, &chars_of(created));
    append(&mut m, &chars_of("\"\n---\n"));
    string_of(m)
}

/// A frontmatter field's text, or `default` when it is missing or no string.
pub open spec fn field_or(f: Option<String>, default: Seq<char>) -> Seq<char> {
    match f {
        Some(s) => s@,
        None => default,
    }
}

fn field_or_exec(f: &Option<String>, default: &str) -> (r: Vec<char>)
    ensures
        r@ == match f {
            Some(s) => s@,
            None => default@,
        },
{
    match f {
        Some(s) => chars_of(s.as_str()),
        None => chars_of(default),
    }
}

/// How a sigil is listed: `{glyph}  {created}`, marked `[charged]` once it
/// has a resonance, then its intention and resonance, and a blank line.
pub open spec fn sigil_entry_text(
    intention: Option<String>,
    compressed: Option<String>,
    resonance: Option<String>,
    created: Option<String>,
) -> Seq<char> {
    let res = field_or(resonance, seq![]);
    field_or(compressed, "?"@) + "  "@ + field_or(created, "?"@) + (if res.len() > 0 {
        " [charged]"@
    } else {
        seq![]
    }) + "\n  intention: "@ + field_or(intention, "?"@) + "\n"@ + (if res.len() > 0 {
        "  resonance: "@ + res + "\n"@
    } else {
        seq![]
    }) + "\n"@
}

/// Lists one sigil.
pub fn sigil_entry(
    intention: &Option<String>,
    compressed: &Option<String>,
    resonance: &Option<String>,
    created: &Option<String>,
) -> (r: String)
    ensures
        r@ == sigil_entry_text(*intention, *compressed, *resonance, *created),
{
    proof {
        reveal_strlit("");
    }
    let res = field_or_exec(resonance, "");
    let mut m = field_or_exec(compressed, "?");
    append(&mut m, &chars_of("  "));
    append(&mut m, &field_or_exec(created, "?"));
    let ghost a = m@;
    if res.len() > 0 {
        append(&mut m, &chars_of(" [charged]"));
    } else {
        assert(m@ =~= a + Seq::<char>::empty());
    }
    append(&mut m, &chars_of("\n  intention: "));
    append(&mut m, &field_or_exec(intention, "?"));
    append(&mut m, &chars_of("\n"));
    let ghost b = m@;
    if res.len() > 0 {
        append(&mut m, &chars_of("  resonance: "));
        append(&mut m, &res);
        append(&mut m, &chars_of("\n"));
    } else {
        assert(m@ =~= b + Seq::<char>::empty());
    }
    append(&mut m, &chars_of("\n"));
    string_of(m)
}

/// A frontmatter value: a string, or another value as its caller rendered it.
pub enum FieldValue {
    Text(String),
    Other(String),
}

/// A field's YAML line: a string quoted, any other value as rendered.
pub open spec fn field_line(key: Seq<char>, v: FieldValue) -> Seq<char> {
    match v {
        FieldValue::Text(s) => key + ": \""@ + s@ + "\""@,
        FieldValue::Other(s) => key + ": "@ + s@,
    }
}

/// The lines of the fields present, in the order intention, compressed,
/// resonance, created.
pub open spec fn sigil_lines(
    intention: Option<FieldValue>,
    compressed: Option<FieldValue>,
    resonance: Option<FieldValue>,
    created: Option<FieldValue>,
) -> Seq<Seq<char>> {
    (match intention { Some(v) => seq![field_line("intention"@, v)], None => seq![] })
        + (match compressed { Some(v) => seq![field_line("compressed"@, v)], None => seq![] })
        + (match resonance { Some(v) => seq![field_line("resonance"@, v)], None => seq![] })
        + (match created { Some(v) => seq![field_line("created"@, v)], None => seq![] })
}

/// A sigil's file rewritten: its frontmatter fields in their fixed order,
/// then the prose (after a blank line, ending with a line feed) when there
/// is any.
pub open spec fn sigil_file_text(
    intention: Option<FieldValue>,
    compressed: Option<FieldValue>,
    resonance: Option<FieldValue>,
    created: Option<FieldValue>,
    prose: Seq<char>,
) -> Seq<char> {
    "---\n"@ + join(sigil_lines(intention, compressed, resonance, created), "\n"@) + "\n---\n"@ + if prose.len() > 0 {
        "\n"@ + prose + if ends_with(prose, "\n"@) {
            seq![]
        } else {
            "\n"@
        }
    } else {
        seq![]
    }
}

fn push_field(lines: &mut Vec<Vec<char>>, key: &str, v: &Option<FieldValue>)
    ensures
        final(lines).deep_view() == old(lines).deep_view() + match *v {
            Some(x) => seq![field_line(key@, x)],
            None => seq![],
        },
{
    match v {
        Some(x) => {
            let mut m = chars_of(key);
            match x {
                FieldValue::Text(s) => {
                    append(&mut m, &chars_of(": \""));
                    append(&mut m, &chars_of(s.as_str()));
                    append(&mut m, &chars_of("\""));
                },
                FieldValue::Other(s) => {
                    append(&mut m, &chars_of(": "));
                    append(&mut m, &chars_of(s.as_str()));
                },
            }
            let ghost before = lines.deep_view();
            proof {
                lemma_chars_dv(m);
            }
            let ghost mv = m@;
            lines.push(m);
            assert(lines.deep_view() =~= before + seq![mv]);
        },
        None => {
            assert(lines.deep_view() =~= lines.deep_view() + Seq::<Seq<char>>::empty());
        },
    }
}

/// Renders a sigil's file from its frontmatter fields and prose.
pub fn render_sigil_frontmatter(
    intention: &Option<FieldValue>,
    compressed: &Option<FieldValue>,
    resonance: &Option<FieldValue>,
    created: &Option<FieldValue>,
    prose: &str,
) -> (r: String)
    ensures
        r@ == sigil_file_text(*intention, *compressed, *resonance, *created, prose@),
{
    let mut lines: Vec<Vec<char>> = Vec::new();
    push_field(&mut lines, "intention", intention);
    push_field(&mut lines, "compressed", compressed);
    push_field(&mut lines, "resonance", resonance);
    push_field(&mut lines, "created", created);
    assert(lines.deep_view() =~= sigil_lines(*intention, *compressed, *resonance, *created));
    let mut m = chars_of("---\n");
    append(&mut m, &join_exec(&lines, &chars_of("\n")));
    append(&mut m, &chars_of("\n---\n"));
    let ghost head = m@;
    let p = chars_of(prose);
    if p.len() > 0 {
        append(&mut m, &chars_of("\n"));
        append(&mut m, &p);
        if !ends_with_exec(&p, &chars_of("\n")) {
            append(&mut m, &chars_of("\n"));
        } else {
            assert(m@ =~= m@ + Seq::<char>::empty());
        }
    } else {
        assert(m@ =~= head + Seq::<char>::empty());
    }
    string_of(m)
}

/// What charging a sigil prints: its glyph (`?` when it has none) marked
/// as charged.
pub open spec fn charged_line_text(compressed: Option<String>) -> Seq<char> {
    field_or(compressed, "?"@) + "  [charged]"@
}

/// The line printed after charging a sigil.
pub fn charged_line(compressed: &Option<String>) -> (r: String)
    ensures
        r@ == charged_line_text(*compressed),
{
    let mut m = field_or_exec(compressed, "?");
    append(&mut m, &chars_of("  [charged]"));
    string_of(m)
}

/// The file name has the extension `md`: a `.md` ending that is not the
/// whole name (a name like `.md` has no extension).
pub open spec fn has_md_extension(name: Seq<char>) -> bool {
    name.len() > 3 && ends_with(name, ".md"@)
}

/// Inserts `x` after every name that does not sort after it.
pub open spec fn insert_by_name(l: Seq<Seq<char>>, x: Seq<char>) -> Seq<Seq<char>>
    decreases l.len(),
{
    if l.len() == 0 {
        seq![x]
    } else if lex_lt(x, l[0]) {
        seq![x] + l
    } else {
        seq![l[0]] + insert_by_name(l.skip(1), x)
    }
}

/// The sigil files among a directory's entries, sorted by name.
pub open spec fn sigil_files_of(names: Seq<Seq<char>>) -> Seq<Seq<char>>
    decreases names.len(),
{
    if names.len() == 0 {
        seq![]
    } else {
        let prev = sigil_files_of(names.drop_last());
        if has_md_extension(names.last()) {
            insert_by_name(prev, names.last())
        } else {
            prev
        }
    }
}

fn insert_by_name_exec(l: &mut Vec<String>, x: String)
    ensures
        final(l)@.map_values(|s: String| s@) == insert_by_name(old(l)@.map_values(|s: String| s@), x@),
{
    let ghost lv = l@.map_values(|s: String| s@);
    let xc = chars_of(x.as_str());
    let mut i: usize = 0;
    assert(lv.skip(0) =~= lv);
    assert(lv.take(0) + insert_by_name(lv, x@) =~= insert_by_name(lv, x@));
    while i < l.len()
        invariant
            i <= l.len(),
            lv == l@.map_values(|s: String| s@),
            lv == old(l)@.map_values(|s: String| s@),
            xc@ == x@,
            insert_by_name(lv, x@) == lv.take(i as int) + insert_by_name(lv.skip(i as int), x@),
        decreases l.len() - i,
    {
        let ghost rest = lv.skip(i as int);
        if lex_lt_exec(&xc, &chars_of(l[i].as_str())) {
            let ghost xv = x@;
            l.insert(i, x);
            assert(l@.map_values(|s: String| s@) =~= lv.take(i as int) + (seq![xv] + rest));
            return;
        }
        assert(rest.skip(1) =~= lv.skip(i + 1));
        assert(lv.take(i as int) + (seq![rest[0]] + insert_by_name(rest.skip(1), x@)) =~= lv.take(i + 1) + insert_by_name(lv.skip(i + 1), x@));
        i += 1;
    }
    let ghost xv = x@;
    l.push(x);
    assert(l@.map_values(|s: String| s@) =~= lv.take(i as int) + seq![xv]);
}

/// The `.md` files among a directory's entry names, sorted by name.
pub fn sigil_files(names: &Vec<String>) -> (r: Vec<String>)
    ensures
        r@.map_values(|s: String| s@) == sigil_files_of(names@.map_values(|s: String| s@)),
{
    let ghost ns = names@.map_values(|s: String| s@);
    let md = chars_of(".md");
    let mut out: Vec<String> = Vec::new();
    let mut i: usize = 0;
    while i < names.len()
        invariant
            i <= names.len(),
            md@ == ".md"@,
            ns == names@.map_values(|s: String| s@),
            out@.map_values(|s: String| s@) == sigil_files_of(ns.take(i as int)),
        decreases names.len() - i,
    {
        assert(ns.take(i + 1).drop_last() =~= ns.take(i as int));
        assert(ns.take(i + 1).last() == names@[i as int]@);
        let n = chars_of(names[i].as_str());
        if n.len() > 3 && ends_with_exec(&n, &md) {
            insert_by_name_exec(&mut out, names[i].clone());
        }
        i += 1;
    }
    assert(ns.take(names.len() as int) =~= ns);
    out
}

} // verus!
