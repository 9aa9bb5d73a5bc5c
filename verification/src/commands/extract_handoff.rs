//! Extract an experiential handoff summary from a session transcript.
//! Prioritizes continuity-relevant content: working direction, discoveries,
//! unfinished threads. Structural data (files, tools) fills remaining budget.
//!
//! The caller reads the transcript's JSON lines into `TranscriptEntry`
//! values; everything after that happens here.
use crate::markdown::{ellipsize, ellipsize_exec, law_ellipsize_fits, take_at_most};
use crate::text::{
    append, byte_len, chars_of, dec, decimal, contains, fits_exec, has, join, join_exec, lemma_chars_dv,
    is_uppercase, lines, lines_exec, lower, lowercase_of, slice_of, starts_with, starts_with_exec,
    string_of, trim, trim_exec, uppercase_char,
};
use vstd::prelude::*;

verus! {

// ---------------------------------------------------------------------------
// Signals in one assistant text
// ---------------------------------------------------------------------------

/// The separator characters dropped after a marker: space, em dash, colon, hyphen.
pub open spec fn is_mark_sep(c: char) -> bool {
    c == ' ' || c == '\u{2014}' || c == ':' || c == '-'
}

/// Number of leading separator characters of `s`.
pub open spec fn lead_seps(s: Seq<char>) -> nat
    decreases s.len(),
{
    if s.len() > 0 && is_mark_sep(s[0]) {
        1 + lead_seps(s.skip(1))
    } else {
        0
    }
}

/// The marker note of a trimmed line, if it starts with `**Spark**`,
/// `**Friction**` or `**Change**` and has text after the separators.
pub open spec fn marker_of(t: Seq<char>) -> Option<Seq<char>> {
    let (prefix, label) = if starts_with(t, "**Spark**"@) {
        ("**Spark**"@, "Spark"@)
    } else if starts_with(t, "**Friction**"@) {
        ("**Friction**"@, "Friction"@)
    } else {
        ("**Change**"@, "Change"@)
    };
    if starts_with(t, prefix) {
        let after = t.skip(prefix.len() as int);
        let rest = after.skip(lead_seps(after) as int);
        if rest.len() > 0 {
            Some(label + ": "@ + ellipsize(trim(rest), 150))
        } else {
            None
        }
    } else {
        None
    }
}

/// The unfinished-work note of a trimmed line: a line that looks like an
/// action item and names unfinished work, cut to 150 bytes.
pub open spec fn unfinished_of(t: Seq<char>) -> Option<Seq<char>> {
    let l = lowercase_of(t);
    let actionable = starts_with(t, "-"@) || starts_with(t, "*"@) || starts_with(t, "TODO"@)
        || starts_with(l, "next"@) || starts_with(l, "still need"@) || starts_with(l, "remaining"@);
    let names = contains(l, "still need"@) || contains(l, "haven't yet"@) || contains(l, "todo"@)
        || contains(l, "next step"@) || contains(l, "remaining"@) || contains(l, "left to do"@)
        || contains(l, "not yet implemented"@);
    if actionable && names && byte_len(t) > 20 {
        Some(ellipsize(t, 150))
    } else {
        None
    }
}

/// `s` followed by the value of `o`, if any.
pub open spec fn push_some(s: Seq<Seq<char>>, o: Option<Seq<char>>) -> Seq<Seq<char>> {
    match o {
        Some(x) => s.push(x),
        None => s,
    }
}

/// The marker notes of the lines (insight title lines are skipped).
pub open spec fn markers_in(ls: Seq<Seq<char>>) -> Seq<Seq<char>>
    decreases ls.len(),
{
    if ls.len() == 0 {
        seq![]
    } else {
        let t = trim(ls.last());
        let prev = markers_in(ls.drop_last());
        if contains(t, "\u{2605} Insight"@) {
            prev
        } else {
            push_some(prev, marker_of(t))
        }
    }
}

/// The unfinished-work notes of the lines (insight title lines are skipped).
pub open spec fn unfinished_in(ls: Seq<Seq<char>>) -> Seq<Seq<char>>
    decreases ls.len(),
{
    if ls.len() == 0 {
        seq![]
    } else {
        let t = trim(ls.last());
        let prev = unfinished_in(ls.drop_last());
        if contains(t, "\u{2605} Insight"@) {
            prev
        } else {
            push_some(prev, unfinished_of(t))
        }
    }
}

/// A sentence ends after character `i` of `t`: at a line break, or at a
/// period followed by a space and an upper-case letter.
pub open spec fn sentence_ends_at(t: Seq<char>, i: int) -> bool {
    t[i] == '\n' || (t[i] == '.' && i + 2 < t.len() && t[i + 1] == ' ' && uppercase_char(t[i + 2]))
}

/// `acc` with `p` trimmed added, when something is left of it.
pub open spec fn push_trimmed(acc: Seq<Seq<char>>, p: Seq<char>) -> Seq<Seq<char>> {
    if trim(p).len() > 0 {
        acc.push(trim(p))
    } else {
        acc
    }
}

/// The sentences of `t` from position `i` on, the current one having begun
/// at `start`, added to `acc`.
pub open spec fn sentence_scan(t: Seq<char>, i: int, start: int, acc: Seq<Seq<char>>) -> Seq<Seq<char>>
    decreases t.len() - i,
{
    if i >= t.len() {
        push_trimmed(acc, t.subrange(start, t.len() as int))
    } else if sentence_ends_at(t, i) {
        sentence_scan(t, i + 1, i + 1, push_trimmed(acc, t.subrange(start, i + 1)))
    } else {
        sentence_scan(t, i + 1, start, acc)
    }
}

/// Rough sentences: the pieces of `text` cut at line breaks and after
/// ". " before an upper-case letter, trimmed, the empty ones dropped.
pub open spec fn sentences(text: Seq<char>) -> Seq<Seq<char>> {
    sentence_scan(text, 0, 0, seq![])
}

/// The hypothesis note of a sentence, if it reads like a working theory.
pub open spec fn hypothesis_of(s: Seq<char>) -> Option<Seq<char>> {
    let l = lowercase_of(s);
    if (contains(l, "i think the"@) || contains(l, "the issue is"@) || contains(l, "the problem is"@)
        || contains(l, "turns out"@)) && byte_len(s) > 30 {
        Some(ellipsize(s, 150))
    } else {
        None
    }
}

/// The hypothesis notes of the sentences.
pub open spec fn hypotheses_in(ss: Seq<Seq<char>>) -> Seq<Seq<char>>
    decreases ss.len(),
{
    if ss.len() == 0 {
        seq![]
    } else {
        push_some(hypotheses_in(ss.drop_last()), hypothesis_of(ss.last()))
    }
}

/// Insight lines after line `i`: lines inside an insight block (opened by a
/// `★ Insight` line, closed by a `───` line once some insight was taken),
/// each cut to 200 bytes and added to `acc`.
pub open spec fn insight_scan(ls: Seq<Seq<char>>, i: int, open: bool, acc: Seq<Seq<char>>) -> Seq<Seq<char>>
    decreases ls.len() - i,
{
    if i >= ls.len() || i < 0 {
        acc
    } else {
        let t = trim(ls[i]);
        if contains(t, "\u{2605} Insight"@) {
            insight_scan(ls, i + 1, true, acc)
        } else if open && starts_with(t, "\u{2500}\u{2500}\u{2500}"@) {
            insight_scan(ls, i + 1, acc.len() == 0, acc)
        } else if open && t.len() > 0 {
            insight_scan(ls, i + 1, true, acc.push(ellipsize(t, 200)))
        } else {
            insight_scan(ls, i + 1, open, acc)
        }
    }
}

/// The signals gathered so far from assistant texts.
pub struct Signals {
    pub insights: Vec<Vec<char>>,
    pub markers: Vec<Vec<char>>,
    pub hypotheses: Vec<Vec<char>>,
    pub unfinished: Vec<Vec<char>>,
}

impl Signals {
    /// The four lists, in this order: insights, markers, hypotheses, unfinished.
    pub open spec fn lists(&self) -> (Seq<Seq<char>>, Seq<Seq<char>>, Seq<Seq<char>>, Seq<Seq<char>>) {
        (
            self.insights.deep_view(),
            self.markers.deep_view(),
            self.hypotheses.deep_view(),
            self.unfinished.deep_view(),
        )
    }
}

/// The signals after reading one (trimmed) assistant text.
pub open spec fn signals_after(
    s: (Seq<Seq<char>>, Seq<Seq<char>>, Seq<Seq<char>>, Seq<Seq<char>>),
    text: Seq<char>,
) -> (Seq<Seq<char>>, Seq<Seq<char>>, Seq<Seq<char>>, Seq<Seq<char>>) {
    let ls = lines(text);
    (
        insight_scan(ls, 0, false, s.0),
        s.1 + markers_in(ls),
        s.2 + hypotheses_in(sentences(text)),
        s.3 + unfinished_in(ls),
    )
}

fn push_opt(v: &mut Vec<Vec<char>>, o: Option<Vec<char>>)
    ensures
        final(v).deep_view() == push_some(
            old(v).deep_view(),
            match o {
                Some(x) => Some(x@),
                None => None,
            },
        ),
{
    if let Some(x) = o {
        let ghost before = v.deep_view();
        proof {
            lemma_chars_dv(x);
        }
        let ghost xv = x@;
        v.push(x);
        assert(v.deep_view() =~= before.push(xv));
    }
}

fn lead_seps_exec(s: &Vec<char>) -> (r: usize)
    ensures
        r == lead_seps(s@),
        r <= s.len(),
{
    let mut i: usize = 0;
    assert(s@.skip(0) =~= s@);
    while i < s.len() && (s[i] == ' ' || s[i] == '\u{2014}' || s[i] == ':' || s[i] == '-')
        invariant
            i <= s.len(),
            lead_seps(s@) == i + lead_seps(s@.skip(i as int)),
        decreases s.len() - i,
    {
        assert(s@.skip(i as int).skip(1) =~= s@.skip(i + 1));
        i += 1;
    }
    i
}

fn marker_exec(t: &Vec<char>) -> (r: Option<Vec<char>>)
    ensures
        match r {
            Some(x) => marker_of(t@) == Some(x@),
            None => marker_of(t@) is None,
        },
{
    let (prefix, label) = if starts_with_exec(t, &chars_of("**Spark**")) {
        (chars_of("**Spark**"), chars_of("Spark"))
    } else if starts_with_exec(t, &chars_of("**Friction**")) {
        (chars_of("**Friction**"), chars_of("Friction"))
    } else {
        (chars_of("**Change**"), chars_of("Change"))
    };
    if !starts_with_exec(t, &prefix) {
        return None;
    }
    let mut after: Vec<char> = Vec::new();
    let mut i = prefix.len();
    while i < t.len()
        invariant
            prefix.len() <= i <= t.len(),
            after@ == t@.subrange(prefix.len() as int, i as int),
        decreases t.len() - i,
    {
        after.push(t[i]);
        i += 1;
    }
    assert(after@ =~= t@.skip(prefix.len() as int));
    let k = lead_seps_exec(&after);
    let mut rest: Vec<char> = Vec::new();
    let mut j = k;
    while j < after.len()
        invariant
            k <= j <= after.len(),
            rest@ == after@.subrange(k as int, j as int),
        decreases after.len() - j,
    {
        rest.push(after[j]);
        j += 1;
    }
    assert(rest@ =~= after@.skip(k as int));
    if rest.len() == 0 {
        return None;
    }
    let mut m = label;
    append(&mut m, &chars_of(": "));
    append(&mut m, &ellipsize_exec(trim_exec(&rest), 150));
    Some(m)
}

fn unfinished_exec(t: &Vec<char>) -> (r: Option<Vec<char>>)
    ensures
        match r {
            Some(x) => unfinished_of(t@) == Some(x@),
            None => unfinished_of(t@) is None,
        },
{
    let l = lower(t);
    let actionable = starts_with_exec(t, &chars_of("-")) || starts_with_exec(t, &chars_of("*"))
        || starts_with_exec(t, &chars_of("TODO")) || starts_with_exec(&l, &chars_of("next"))
        || starts_with_exec(&l, &chars_of("still need")) || starts_with_exec(
        &l,
        &chars_of("remaining"),
    );
    let names = has(&l, "still need") || has(&l, "haven't yet") || has(&l, "todo") || has(
        &l,
        "next step",
    ) || has(&l, "remaining") || has(&l, "left to do") || has(&l, "not yet implemented");
    if actionable && names && !fits_exec(t, 20) {
        Some(ellipsize_exec(t.clone(), 150))
    } else {
        None
    }
}

fn hypothesis_exec(s: &Vec<char>) -> (r: Option<Vec<char>>)
    ensures
        match r {
            Some(x) => hypothesis_of(s@) == Some(x@),
            None => hypothesis_of(s@) is None,
        },
{
    let l = lower(s);
    if (has(&l, "i think the") || has(&l, "the issue is") || has(&l, "the problem is") || has(
        &l,
        "turns out",
    )) && !fits_exec(s, 30) {
        Some(ellipsize_exec(s.clone(), 150))
    } else {
        None
    }
}

/// Adds `p`, trimmed, to `out` when something is left of it.
fn push_trimmed_exec(out: &mut Vec<Vec<char>>, p: &Vec<char>)
    ensures
        final(out).deep_view() == push_trimmed(old(out).deep_view(), p@),
{
    let s = trim_exec(p);
    if s.len() > 0 {
        let ghost before = out.deep_view();
        proof {
            lemma_chars_dv(s);
        }
        let ghost sv = s@;
        out.push(s);
        assert(out.deep_view() =~= before.push(sv));
    }
}

/// Rough sentence splitter: splits after ". " followed by an upper-case
/// letter, and at line breaks; the pieces are trimmed and non-empty.
pub fn split_sentences(text: &Vec<char>) -> (r: Vec<Vec<char>>)
    ensures
        r.deep_view() == sentences(text@),
{
    let mut out: Vec<Vec<char>> = Vec::new();
    let mut start: usize = 0;
    let mut i: usize = 0;
    assert(out.deep_view() =~= Seq::<Seq<char>>::empty());
    while i < text.len()
        invariant
            start <= i <= text.len(),
            sentence_scan(text@, i as int, start as int, out.deep_view()) == sentences(text@),
        decreases text.len() - i,
    {
        let n = text.len();
        let ends = text[i] == '\n' || (text[i] == '.' && n - i > 2 && text[i + 1] == ' ' && is_uppercase(
            text[i + 2],
        ));
        assert(ends == sentence_ends_at(text@, i as int));
        if ends {
            let piece = slice_of(text, start, i + 1);
            push_trimmed_exec(&mut out, &piece);
            start = i + 1;
        }
        i += 1;
    }
    let piece = slice_of(text, start, text.len());
    push_trimmed_exec(&mut out, &piece);
    out
}

/// Extract experiential signals from an assistant text block.
pub fn extract_signals(text: &Vec<char>, sig: &mut Signals)
    ensures
        final(sig).lists() == signals_after(old(sig).lists(), text@),
{
    let ls = lines_exec(text);
    let ghost lv = ls.deep_view();
    let ghost m0 = sig.markers.deep_view();
    let ghost u0 = sig.unfinished.deep_view();
    let ghost i0 = sig.insights.deep_view();
    let ghost h0 = sig.hypotheses.deep_view();
    let star = chars_of("\u{2605} Insight");
    let mut i: usize = 0;
    while i < ls.len()
        invariant
            i <= ls.len(),
            lv == ls.deep_view(),
            star@ == "\u{2605} Insight"@,
            sig.markers.deep_view() == m0 + markers_in(lv.take(i as int)),
            sig.unfinished.deep_view() == u0 + unfinished_in(lv.take(i as int)),
            sig.insights.deep_view() == i0,
            sig.hypotheses.deep_view() == h0,
        decreases ls.len() - i,
    {
        proof {
            lemma_chars_dv(ls@[i as int]);
            assert(lv.take(i + 1).drop_last() =~= lv.take(i as int));
        }
        let t = trim_exec(&ls[i]);
        if !crate::text::contains_exec(&t, &star) {
            let mk = marker_exec(&t);
            let uf = unfinished_exec(&t);
            push_opt(&mut sig.markers, mk);
            push_opt(&mut sig.unfinished, uf);
            assert(sig.markers.deep_view() =~= m0 + markers_in(lv.take(i + 1)));
            assert(sig.unfinished.deep_view() =~= u0 + unfinished_in(lv.take(i + 1)));
        }
        i += 1;
    }
    assert(lv.take(ls.len() as int) =~= lv);
    // Hypotheses, sentence by sentence.
    let sents = split_sentences(text);
    let ghost sv = sents.deep_view();
    let ghost m1 = sig.markers.deep_view();
    let ghost u1 = sig.unfinished.deep_view();
    let mut j: usize = 0;
    while j < sents.len()
        invariant
            j <= sents.len(),
            sv == sents.deep_view(),
            sig.hypotheses.deep_view() == h0 + hypotheses_in(sv.take(j as int)),
            sig.markers.deep_view() == m1,
            sig.unfinished.deep_view() == u1,
            sig.insights.deep_view() == i0,
        decreases sents.len() - j,
    {
        proof {
            lemma_chars_dv(sents@[j as int]);
            assert(sv.take(j + 1).drop_last() =~= sv.take(j as int));
        }
        let hy = hypothesis_exec(&sents[j]);
        push_opt(&mut sig.hypotheses, hy);
        assert(sig.hypotheses.deep_view() =~= h0 + hypotheses_in(sv.take(j + 1)));
        j += 1;
    }
    assert(sv.take(sents.len() as int) =~= sv);
    // Insight blocks.
    let dash = chars_of("\u{2500}\u{2500}\u{2500}");
    let mut open = false;
    let mut k: usize = 0;
    let ghost target = insight_scan(lv, 0, false, sig.insights.deep_view());
    let ghost h1 = sig.hypotheses.deep_view();
    while k < ls.len()
        invariant
            k <= ls.len(),
            lv == ls.deep_view(),
            star@ == "\u{2605} Insight"@,
            dash@ == "\u{2500}\u{2500}\u{2500}"@,
            target == insight_scan(lv, k as int, open, sig.insights.deep_view()),
            sig.markers.deep_view() == m1,
            sig.unfinished.deep_view() == u1,
            sig.hypotheses.deep_view() == h1,
        decreases ls.len() - k,
    {
        proof {
            lemma_chars_dv(ls@[k as int]);
        }
        let t = trim_exec(&ls[k]);
        if crate::text::contains_exec(&t, &star) {
            open = true;
        } else if open && starts_with_exec(&t, &dash) {
            if sig.insights.len() > 0 {
                open = false;
            }
        } else if open && t.len() > 0 {
            let e = ellipsize_exec(t, 200);
            let ghost before = sig.insights.deep_view();
            proof {
                lemma_chars_dv(e);
            }
            let ghost ev = e@;
            sig.insights.push(e);
            assert(sig.insights.deep_view() =~= before.push(ev));
        }
        k += 1;
    }
}

// ---------------------------------------------------------------------------
// The transcript
// ---------------------------------------------------------------------------

/// A content block of an assistant message.
pub enum Block {
    /// A text block.
    Text(String),
    /// A tool call, with the `file_path` of its input when it has one.
    ToolUse { name: String, file_path: Option<String> },
    /// Any other block.
    Other,
}

/// One message of a transcript.
pub enum TranscriptEntry {
    /// A user message: its text (a string content), or the texts of its
    /// `text` blocks (an array content).
    User(Vec<String>),
    /// An assistant message with its content blocks.
    Assistant(Vec<Block>),
    /// Anything else (other roles, lines that are no message).
    Other,
}

/// Filter out system-injected content from user text blocks.
pub open spec fn user_text(t: Seq<char>) -> bool {
    &&& t.len() > 0
    &&& !starts_with(t, "<system-reminder>"@)
    &&& !starts_with(t, "<local-command-caveat>"@)
    &&& !starts_with(t, "<command-name>"@)
    &&& !starts_with(t, "<command-message>"@)
    &&& !starts_with(t, "<command-args>"@)
    &&& !starts_with(t, "<local-command-stdout>"@)
}

/// Filter out system-injected content from user text blocks.
pub fn is_user_text(t: &Vec<char>) -> (r: bool)
    ensures
        r == user_text(t@),
{
    t.len() > 0 && !starts_with_exec(t, &chars_of("<system-reminder>")) && !starts_with_exec(
        t,
        &chars_of("<local-command-caveat>"),
    ) && !starts_with_exec(t, &chars_of("<command-name>")) && !starts_with_exec(
        t,
        &chars_of("<command-message>"),
    ) && !starts_with_exec(t, &chars_of("<command-args>")) && !starts_with_exec(
        t,
        &chars_of("<local-command-stdout>"),
    )
}

/// `a` sorts before `b` (by code point, which is also UTF-8 byte order).
pub open spec fn lex_lt(a: Seq<char>, b: Seq<char>) -> bool
    decreases a.len(),
{
    if a.len() == 0 {
        b.len() > 0
    } else if b.len() == 0 {
        false
    } else if a[0] != b[0] {
        (a[0] as u32) < (b[0] as u32)
    } else {
        lex_lt(a.skip(1), b.skip(1))
    }
}

/// Inserts `x` into the sorted list `l` unless it is there (a `BTreeSet`
/// insertion, in iteration order).
pub open spec fn insert_sorted(l: Seq<Seq<char>>, x: Seq<char>) -> Seq<Seq<char>>
    decreases l.len(),
{
    if l.len() == 0 {
        seq![x]
    } else if l[0] == x {
        l
    } else if lex_lt(x, l[0]) {
        seq![x] + l
    } else {
        seq![l[0]] + insert_sorted(l.skip(1), x)
    }
}

pub(crate) fn lex_lt_exec(a: &Vec<char>, b: &Vec<char>) -> (r: bool)
    ensures
        r == lex_lt(a@, b@),
{
    let mut i: usize = 0;
    assert(a@.skip(0) =~= a@);
    assert(b@.skip(0) =~= b@);
    while i < a.len() && i < b.len() && a[i] == b[i]
        invariant
            i <= a.len(),
            i <= b.len(),
            lex_lt(a@, b@) == lex_lt(a@.skip(i as int), b@.skip(i as int)),
        decreases a.len() - i,
    {
        assert(a@.skip(i as int).skip(1) =~= a@.skip(i + 1));
        assert(b@.skip(i as int).skip(1) =~= b@.skip(i + 1));
        i += 1;
    }
    if i == a.len() {
        i < b.len()
    } else if i == b.len() {
        false
    } else {
        (a[i] as u32) < (b[i] as u32)
    }
}

pub(crate) fn insert_sorted_exec(l: &mut Vec<Vec<char>>, x: Vec<char>)
    ensures
        final(l).deep_view() == insert_sorted(old(l).deep_view(), x@),
{
    let ghost lv = l.deep_view();
    let mut i: usize = 0;
    assert(lv.skip(0) =~= lv);
    assert(lv.take(0) + insert_sorted(lv, x@) =~= insert_sorted(lv, x@));
    while i < l.len()
        invariant
            i <= l.len(),
            lv == l.deep_view(),
            lv == old(l).deep_view(),
            insert_sorted(lv, x@) == lv.take(i as int) + insert_sorted(lv.skip(i as int), x@),
        decreases l.len() - i,
    {
        proof {
            lemma_chars_dv(l@[i as int]);
        }
        let ghost rest = lv.skip(i as int);
        if crate::markdown::chars_eq(&l[i], &x) {
            assert(rest[0] == x@);
            assert(lv.take(i as int) + rest =~= lv);
            return;
        }
        if lex_lt_exec(&x, &l[i]) {
            proof {
                lemma_chars_dv(x);
            }
            let ghost xv = x@;
            l.insert(i, x);
            assert(l.deep_view() =~= lv.take(i as int) + (seq![xv] + rest));
            return;
        }
        assert(rest.skip(1) =~= lv.skip(i + 1));
        assert(lv.take(i as int) + (seq![rest[0]] + insert_sorted(rest.skip(1), x@)) =~= lv.take(i + 1) + insert_sorted(lv.skip(i + 1), x@));
        i += 1;
    }
    proof {
        lemma_chars_dv(x);
    }
    let ghost xv = x@;
    l.push(x);
    assert(l.deep_view() =~= lv.take(i as int) + seq![xv]);
}

/// What has been gathered from a transcript: user prompts, assistant texts,
/// modified files (sorted, distinct) and signals.
pub struct Harvest {
    pub user_prompts: Vec<Vec<char>>,
    pub assistant_texts: Vec<Vec<char>>,
    pub files: Vec<Vec<char>>,
    pub signals: Signals,
}

/// A harvest as its lists.
pub type HarvestView = (
    Seq<Seq<char>>,
    Seq<Seq<char>>,
    Seq<Seq<char>>,
    (Seq<Seq<char>>, Seq<Seq<char>>, Seq<Seq<char>>, Seq<Seq<char>>),
);

impl Harvest {
    /// The harvest as its lists.
    pub open spec fn lists(&self) -> HarvestView {
        (
            self.user_prompts.deep_view(),
            self.assistant_texts.deep_view(),
            self.files.deep_view(),
            self.signals.lists(),
        )
    }
}

/// The prompts after a user message's texts.
pub open spec fn prompts_after(prompts: Seq<Seq<char>>, raws: Seq<String>) -> Seq<Seq<char>>
    decreases raws.len(),
{
    if raws.len() == 0 {
        prompts
    } else {
        let p = prompts_after(prompts, raws.drop_last());
        let t = trim(raws.last()@);
        if user_text(t) {
            p.push(ellipsize(t, 200))
        } else {
            p
        }
    }
}

/// The harvest after an assistant message's blocks.
pub open spec fn blocks_after(h: HarvestView, blocks: Seq<Block>) -> HarvestView
    decreases blocks.len(),
{
    if blocks.len() == 0 {
        h
    } else {
        let p = blocks_after(h, blocks.drop_last());
        match blocks.last() {
            Block::Text(raw) => {
                let t = trim(raw@);
                if t.len() > 0 {
                    (p.0, p.1.push(t), p.2, signals_after(p.3, t))
                } else {
                    p
                }
            },
            Block::ToolUse { name, file_path } => {
                if (name@ == "Edit"@ || name@ == "Write"@) && file_path is Some {
                    (p.0, p.1, insert_sorted(p.2, file_path.unwrap()@), p.3)
                } else {
                    p
                }
            },
            Block::Other => p,
        }
    }
}

/// The harvest of a whole transcript.
pub open spec fn harvest(entries: Seq<TranscriptEntry>) -> HarvestView
    decreases entries.len(),
{
    if entries.len() == 0 {
        (seq![], seq![], seq![], (seq![], seq![], seq![], seq![]))
    } else {
        let h = harvest(entries.drop_last());
        match entries.last() {
            TranscriptEntry::User(raws) => (prompts_after(h.0, raws@), h.1, h.2, h.3),
            TranscriptEntry::Assistant(blocks) => blocks_after(h, blocks@),
            TranscriptEntry::Other => h,
        }
    }
}

fn gather_user(h: &mut Harvest, raws: &Vec<String>)
    ensures
        final(h).lists() == ({
            let o = old(h).lists();
            (prompts_after(o.0, raws@), o.1, o.2, o.3)
        }),
{
    let ghost o = h.lists();
    let mut i: usize = 0;
    while i < raws.len()
        invariant
            i <= raws.len(),
            h.lists() == (prompts_after(o.0, raws@.take(i as int)), o.1, o.2, o.3),
        decreases raws.len() - i,
    {
        assert(raws@.take(i + 1).drop_last() =~= raws@.take(i as int));
        let t = trim_exec(&chars_of(raws[i].as_str()));
        if is_user_text(&t) {
            let e = ellipsize_exec(t, 200);
            let ghost before = h.user_prompts.deep_view();
            proof {
                lemma_chars_dv(e);
            }
            let ghost ev = e@;
            h.user_prompts.push(e);
            assert(h.user_prompts.deep_view() =~= before.push(ev));
        }
        i += 1;
    }
    assert(raws@.take(raws.len() as int) =~= raws@);
}

fn gather_assistant(h: &mut Harvest, blocks: &Vec<Block>)
    ensures
        final(h).lists() == blocks_after(old(h).lists(), blocks@),
{
    let ghost o = h.lists();
    let mut i: usize = 0;
    while i < blocks.len()
        invariant
            i <= blocks.len(),
            h.lists() == blocks_after(o, blocks@.take(i as int)),
        decreases blocks.len() - i,
    {
        assert(blocks@.take(i + 1).drop_last() =~= blocks@.take(i as int));
        match &blocks[i] {
            Block::Text(raw) => {
                let t = trim_exec(&chars_of(raw.as_str()));
                if t.len() > 0 {
                    extract_signals(&t, &mut h.signals);
                    let ghost before = h.assistant_texts.deep_view();
                    proof {
                        lemma_chars_dv(t);
                    }
                    let ghost tv = t@;
                    h.assistant_texts.push(t);
                    assert(h.assistant_texts.deep_view() =~= before.push(tv));
                }
            },
            Block::ToolUse { name, file_path } => {
                let edits = name.as_str().to_owned() == "Edit".to_owned() || name.as_str().to_owned() == "Write".to_owned();
                if edits {
                    if let Some(fp) = file_path {
                        insert_sorted_exec(&mut h.files, chars_of(fp.as_str()));
                    }
                }
            },
            Block::Other => {},
        }
        i += 1;
    }
    assert(blocks@.take(blocks.len() as int) =~= blocks@);
}

/// Reads every entry of a transcript.
pub fn gather(entries: &Vec<TranscriptEntry>) -> (r: Harvest)
    ensures
        r.lists() == harvest(entries@),
{
    let mut h = Harvest {
        user_prompts: Vec::new(),
        assistant_texts: Vec::new(),
        files: Vec::new(),
        signals: Signals {
            insights: Vec::new(),
            markers: Vec::new(),
            hypotheses: Vec::new(),
            unfinished: Vec::new(),
        },
    };
    assert(h.lists() =~= harvest(entries@.take(0)));
    let mut i: usize = 0;
    while i < entries.len()
        invariant
            i <= entries.len(),
            h.lists() == harvest(entries@.take(i as int)),
        decreases entries.len() - i,
    {
        assert(entries@.take(i + 1).drop_last() =~= entries@.take(i as int));
        match &entries[i] {
            TranscriptEntry::User(raws) => gather_user(&mut h, raws),
            TranscriptEntry::Assistant(blocks) => gather_assistant(&mut h, blocks),
            TranscriptEntry::Other => {},
        }
        i += 1;
    }
    assert(entries@.take(entries.len() as int) =~= entries@);
    h
}

// ---------------------------------------------------------------------------
// The handoff
// ---------------------------------------------------------------------------

/// The last text of at least 80 bytes among the first `n` that is not a
/// listing ("here are the...", "the files...").
pub open spec fn substantive_among(texts: Seq<Seq<char>>, n: int) -> Option<Seq<char>>
    decreases n,
{
    if n <= 0 || n > texts.len() {
        None
    } else {
        let t = texts[n - 1];
        let l = lowercase_of(t);
        if byte_len(t) >= 80 && !(starts_with(l, "here are the"@) || starts_with(l, "the files"@)) {
            Some(t)
        } else {
            substantive_among(texts, n - 1)
        }
    }
}

/// The working direction: the last substantive text, or failing that the
/// last text, cut to `max` bytes.
pub open spec fn direction_of(texts: Seq<Seq<char>>, max: int) -> Seq<char> {
    match substantive_among(texts, texts.len() as int) {
        Some(t) => ellipsize(t, max),
        None => if texts.len() > 0 {
            ellipsize(texts.last(), max)
        } else {
            seq![]
        },
    }
}

/// Find the last substantive assistant text (>min_len chars, not trivial).
pub fn last_substantive_text(texts: &Vec<Vec<char>>, max_chars: usize) -> (r: Vec<char>)
    ensures
        r@ == direction_of(texts.deep_view(), max_chars as int),
{
    let ghost tv = texts.deep_view();
    let mut n = texts.len();
    while n > 0
        invariant
            n <= texts.len(),
            tv == texts.deep_view(),
            substantive_among(tv, tv.len() as int) == substantive_among(tv, n as int),
        decreases n,
    {
        proof {
            lemma_chars_dv(texts@[n - 1]);
        }
        let t = &texts[n - 1];
        let l = lower(t);
        if !fits_exec(t, 79) && !(starts_with_exec(&l, &chars_of("here are the")) || starts_with_exec(
            &l,
            &chars_of("the files"),
        )) {
            return ellipsize_exec(t.clone(), max_chars);
        }
        n -= 1;
    }
    if texts.len() > 0 {
        proof {
            lemma_chars_dv(texts@[texts.len() - 1]);
        }
        ellipsize_exec(texts[texts.len() - 1].clone(), max_chars)
    } else {
        Vec::new()
    }
}

/// Each item as a bullet.
pub open spec fn bullet_all(xs: Seq<Seq<char>>) -> Seq<Seq<char>> {
    xs.map_values(|x: Seq<char>| "- "@ + x)
}

/// The items that are no delimiter line.
pub open spec fn no_delims(xs: Seq<Seq<char>>) -> Seq<Seq<char>>
    decreases xs.len(),
{
    if xs.len() == 0 {
        seq![]
    } else if contains(xs.last(), "\u{2500}\u{2500}\u{2500}"@) {
        no_delims(xs.drop_last())
    } else {
        no_delims(xs.drop_last()).push(xs.last())
    }
}

/// The items starting with `p` or `q`.
pub open spec fn starting_with(xs: Seq<Seq<char>>, p: Seq<char>, q: Seq<char>) -> Seq<Seq<char>>
    decreases xs.len(),
{
    if xs.len() == 0 {
        seq![]
    } else if starts_with(xs.last(), p) || starts_with(xs.last(), q) {
        starting_with(xs.drop_last(), p, q).push(xs.last())
    } else {
        starting_with(xs.drop_last(), p, q)
    }
}

/// The user-request lines: the first two, a count of those left out, and the last.
pub open spec fn request_lines(ps: Seq<Seq<char>>) -> Seq<Seq<char>> {
    bullet_all(take_at_most(ps, 2)) + if ps.len() > 2 {
        (if ps.len() > 3 {
            seq!["- ...("@ + dec((ps.len() - 3) as nat) + " more)"@]
        } else {
            seq![]
        }) + seq!["- "@ + ps.last()]
    } else {
        seq![]
    }
}

/// The files section: the count, the first ten files, and how many more.
pub open spec fn files_section(fs: Seq<Seq<char>>) -> Seq<char> {
    "## Files Modified ("@ + dec(fs.len()) + ")\n\n"@ + join(bullet_all(take_at_most(fs, 10)), "\n"@) + if fs.len() > 10 {
        "\n- ...and "@ + dec((fs.len() - 10) as nat) + " more"@
    } else {
        seq![]
    }
}

/// `[head + join(items)]` when there are items, else nothing.
pub open spec fn section(head: Seq<char>, items: Seq<Seq<char>>) -> Seq<Seq<char>> {
    if items.len() > 0 {
        seq![head + join(items, "\n"@)]
    } else {
        seq![]
    }
}

/// The sections of a handoff: experiential first, structural after.
pub open spec fn handoff_sections(h: HarvestView) -> Seq<Seq<char>> {
    let direction = direction_of(h.1, 600);
    let sig = h.3;
    let discoveries = bullet_all(no_delims(take_at_most(sig.0, 3))) + bullet_all(
        starting_with(sig.1, "Spark"@, "Spark"@),
    );
    (if direction.len() > 0 {
        seq!["## Working Direction\n\n"@ + direction]
    } else {
        seq![]
    }) + section("## Discoveries\n\n"@, discoveries) + section(
        "## Friction & Lessons\n\n"@,
        bullet_all(starting_with(sig.1, "Friction"@, "Change"@)),
    ) + section("## Unfinished Threads\n\n"@, bullet_all(take_at_most(sig.3, 5))) + section(
        "## Working Hypotheses\n\n"@,
        bullet_all(take_at_most(sig.2, 3)),
    ) + section("## User Requests\n\n"@, request_lines(h.0)) + (if h.2.len() > 0 {
        seq![files_section(h.2)]
    } else {
        seq![]
    })
}

/// What `extract` returns for a transcript: its sections joined by blank
/// lines, cut to `max_chars` bytes (structural sections go first).
pub open spec fn handoff_text(entries: Seq<TranscriptEntry>, max_chars: int) -> Seq<char> {
    ellipsize(join(handoff_sections(harvest(entries)), "\n\n"@), max_chars)
}

pub(crate) fn bullets_exec(xs: &Vec<Vec<char>>, n: usize) -> (r: Vec<Vec<char>>)
    ensures
        r.deep_view() == bullet_all(take_at_most(xs.deep_view(), n as int)),
{
    let ghost xv = xs.deep_view();
    let mut out: Vec<Vec<char>> = Vec::new();
    let mut i: usize = 0;
    while i < xs.len() && i < n
        invariant
            i <= xs.len(),
            i <= n,
            xv == xs.deep_view(),
            out.deep_view() == bullet_all(xv.take(i as int)),
        decreases xs.len() - i,
    {
        proof {
            lemma_chars_dv(xs@[i as int]);
        }
        let mut b = chars_of("- ");
        append(&mut b, &xs[i]);
        let ghost before = out.deep_view();
        proof {
            lemma_chars_dv(b);
        }
        let ghost bv = b@;
        out.push(b);
        assert(out.deep_view() =~= before.push(bv));
        assert(bullet_all(xv.take(i + 1)) =~= bullet_all(xv.take(i as int)).push(bv));
        i += 1;
    }
    assert(xv.take(i as int) =~= take_at_most(xv, n as int));
    out
}

pub(crate) fn first_n(xs: &Vec<Vec<char>>, n: usize) -> (r: Vec<Vec<char>>)
    ensures
        r.deep_view() == take_at_most(xs.deep_view(), n as int),
{
    let ghost xv = xs.deep_view();
    let mut out: Vec<Vec<char>> = Vec::new();
    let mut i: usize = 0;
    while i < xs.len() && i < n
        invariant
            i <= xs.len(),
            i <= n,
            xv == xs.deep_view(),
            out.deep_view() == xv.take(i as int),
        decreases xs.len() - i,
    {
        proof {
            lemma_chars_dv(xs@[i as int]);
        }
        let x = xs[i].clone();
        let ghost before = out.deep_view();
        proof {
            lemma_chars_dv(x);
        }
        let ghost v = x@;
        out.push(x);
        assert(out.deep_view() =~= before.push(v));
        assert(xv.take(i + 1) =~= xv.take(i as int).push(v));
        i += 1;
    }
    assert(xv.take(i as int) =~= take_at_most(xv, n as int));
    out
}

fn no_delims_exec(xs: &Vec<Vec<char>>) -> (r: Vec<Vec<char>>)
    ensures
        r.deep_view() == no_delims(xs.deep_view()),
{
    let ghost xv = xs.deep_view();
    let dash = chars_of("\u{2500}\u{2500}\u{2500}");
    let mut out: Vec<Vec<char>> = Vec::new();
    let mut i: usize = 0;
    while i < xs.len()
        invariant
            i <= xs.len(),
            xv == xs.deep_view(),
            dash@ == "\u{2500}\u{2500}\u{2500}"@,
            out.deep_view() == no_delims(xv.take(i as int)),
        decreases xs.len() - i,
    {
        proof {
            lemma_chars_dv(xs@[i as int]);
            assert(xv.take(i + 1).drop_last() =~= xv.take(i as int));
        }
        if !crate::text::contains_exec(&xs[i], &dash) {
            let x = xs[i].clone();
            let ghost before = out.deep_view();
            proof {
                lemma_chars_dv(x);
            }
            let ghost v = x@;
            out.push(x);
            assert(out.deep_view() =~= before.push(v));
        }
        i += 1;
    }
    assert(xv.take(xs.len() as int) =~= xv);
    out
}

fn starting_with_exec(xs: &Vec<Vec<char>>, p: &str, q: &str) -> (r: Vec<Vec<char>>)
    ensures
        r.deep_view() == starting_with(xs.deep_view(), p@, q@),
{
    let ghost xv = xs.deep_view();
    let pv = chars_of(p);
    let qv = chars_of(q);
    let mut out: Vec<Vec<char>> = Vec::new();
    let mut i: usize = 0;
    while i < xs.len()
        invariant
            i <= xs.len(),
            xv == xs.deep_view(),
            pv@ == p@,
            qv@ == q@,
            out.deep_view() == starting_with(xv.take(i as int), p@, q@),
        decreases xs.len() - i,
    {
        proof {
            lemma_chars_dv(xs@[i as int]);
            assert(xv.take(i + 1).drop_last() =~= xv.take(i as int));
        }
        if starts_with_exec(&xs[i], &pv) || starts_with_exec(&xs[i], &qv) {
            let x = xs[i].clone();
            let ghost before = out.deep_view();
            proof {
                lemma_chars_dv(x);
            }
            let ghost v = x@;
            out.push(x);
            assert(out.deep_view() =~= before.push(v));
        }
        i += 1;
    }
    assert(xv.take(xs.len() as int) =~= xv);
    out
}

pub(crate) fn push_section(sections: &mut Vec<Vec<char>>, head: &str, items: &Vec<Vec<char>>)
    ensures
        final(sections).deep_view() == old(sections).deep_view() + section(head@, items.deep_view()),
{
    if items.len() > 0 {
        let mut s = chars_of(head);
        append(&mut s, &join_exec(items, &chars_of("\n")));
        let ghost before = sections.deep_view();
        proof {
            lemma_chars_dv(s);
        }
        let ghost sv = s@;
        sections.push(s);
        assert(sections.deep_view() =~= before + seq![sv]);
    } else {
        assert(sections.deep_view() =~= sections.deep_view() + section(head@, items.deep_view()));
    }
}

fn concat_lists(a: Vec<Vec<char>>, b: Vec<Vec<char>>) -> (r: Vec<Vec<char>>)
    ensures
        r.deep_view() == a.deep_view() + b.deep_view(),
{
    let mut r = a;
    let ghost a0 = r.deep_view();
    let mut i: usize = 0;
    while i < b.len()
        invariant
            i <= b.len(),
            r.deep_view() == a0 + b.deep_view().take(i as int),
        decreases b.len() - i,
    {
        proof {
            lemma_chars_dv(b@[i as int]);
        }
        let x = b[i].clone();
        let ghost before = r.deep_view();
        proof {
            lemma_chars_dv(x);
        }
        let ghost v = x@;
        r.push(x);
        assert(r.deep_view() =~= before.push(v));
        assert(b.deep_view().take(i + 1) =~= b.deep_view().take(i as int).push(v));
        i += 1;
    }
    assert(b.deep_view().take(b.len() as int) =~= b.deep_view());
    r
}

/// Builds the handoff summary of a transcript: working direction,
/// discoveries, friction and lessons, unfinished threads, hypotheses, user
/// requests and modified files, cut to `max_chars` bytes.
pub fn extract(entries: &Vec<TranscriptEntry>, max_chars: usize) -> (r: String)
    ensures
        r@ == handoff_text(entries@, max_chars as int),
{
    let h = gather(entries);
    let ghost hv = h.lists();
    let mut sections: Vec<Vec<char>> = Vec::new();
    let direction = last_substantive_text(&h.assistant_texts, 600);
    if direction.len() > 0 {
        let mut s = chars_of("## Working Direction\n\n");
        append(&mut s, &direction);
        proof {
            lemma_chars_dv(s);
        }
        let ghost sv = s@;
        sections.push(s);
        assert(sections.deep_view() =~= seq![sv]);
    }
    let ghost s1 = sections.deep_view();
    let ghost sig = hv.3;
    let firsts = first_n(&h.signals.insights, 3);
    let kept = no_delims_exec(&firsts);
    let kept_b = bullets_exec(&kept, kept.len());
    let sparks = starting_with_exec(&h.signals.markers, "Spark", "Spark");
    let sparks_b = bullets_exec(&sparks, sparks.len());
    assert(take_at_most(kept.deep_view(), kept.len() as int) =~= kept.deep_view());
    assert(take_at_most(sparks.deep_view(), sparks.len() as int) =~= sparks.deep_view());
    let discoveries = concat_lists(kept_b, sparks_b);
    assert(discoveries.deep_view() =~= bullet_all(no_delims(take_at_most(sig.0, 3))) + bullet_all(starting_with(sig.1, "Spark"@, "Spark"@)));
    push_section(&mut sections, "## Discoveries\n\n", &discoveries);
    let fr = starting_with_exec(&h.signals.markers, "Friction", "Change");
    let fr_b = bullets_exec(&fr, fr.len());
    assert(take_at_most(fr.deep_view(), fr.len() as int) =~= fr.deep_view());
    push_section(&mut sections, "## Friction & Lessons\n\n", &fr_b);
    push_section(&mut sections, "## Unfinished Threads\n\n", &bullets_exec(&h.signals.unfinished, 5));
    push_section(&mut sections, "## Working Hypotheses\n\n", &bullets_exec(&h.signals.hypotheses, 3));
    let ghost s2 = sections.deep_view();
    assert(s2 =~= s1 + section("## Discoveries\n\n"@, bullet_all(no_delims(take_at_most(sig.0, 3))) + bullet_all(starting_with(sig.1, "Spark"@, "Spark"@))) + section(
        "## Friction & Lessons\n\n"@,
        bullet_all(starting_with(sig.1, "Friction"@, "Change"@)),
    ) + section("## Unfinished Threads\n\n"@, bullet_all(take_at_most(sig.3, 5))) + section(
        "## Working Hypotheses\n\n"@,
        bullet_all(take_at_most(sig.2, 3)),
    ));
    let mut requests = bullets_exec(&h.user_prompts, 2);
    let np = h.user_prompts.len();
    if np > 2 {
        if np > 3 {
            let mut m = chars_of("- ...(");
            append(&mut m, &decimal((np - 3) as u64));
            append(&mut m, &chars_of(" more)"));
            let ghost before = requests.deep_view();
            proof {
                lemma_chars_dv(m);
            }
            let ghost mv = m@;
            requests.push(m);
            assert(requests.deep_view() =~= before.push(mv));
        }
        let mut last = chars_of("- ");
        proof {
            lemma_chars_dv(h.user_prompts@[np - 1]);
        }
        append(&mut last, &h.user_prompts[np - 1]);
        let ghost before = requests.deep_view();
        proof {
            lemma_chars_dv(last);
        }
        let ghost lastv = last@;
        requests.push(last);
        assert(requests.deep_view() =~= before.push(lastv));
    }
    assert(requests.deep_view() =~= request_lines(hv.0));
    push_section(&mut sections, "## User Requests\n\n", &requests);
    let ghost s3 = sections.deep_view();
    let nf = h.files.len();
    if nf > 0 {
        let mut s = chars_of("## Files Modified (");
        append(&mut s, &decimal(nf as u64));
        append(&mut s, &chars_of(")\n\n"));
        append(&mut s, &join_exec(&bullets_exec(&h.files, 10), &chars_of("\n")));
        let ghost head = s@;
        if nf <= 10 {
            assert(head =~= head + Seq::<char>::empty());
        }
        if nf > 10 {
            append(&mut s, &chars_of("\n- ...and "));
            append(&mut s, &decimal((nf - 10) as u64));
            append(&mut s, &chars_of(" more"));
        }
        assert(s@ =~= files_section(hv.2));
        let ghost before = sections.deep_view();
        proof {
            lemma_chars_dv(s);
        }
        let ghost sv = s@;
        sections.push(s);
        assert(sections.deep_view() =~= before.push(sv));
    }
    assert(sections.deep_view() =~= s3 + (if hv.2.len() > 0 {
        seq![files_section(hv.2)]
    } else {
        seq![]
    }));
    assert(sections.deep_view() =~= handoff_sections(hv));
    let all = join_exec(&sections, &chars_of("\n\n"));
    string_of(ellipsize_exec(all, max_chars))
}

/// A handoff never exceeds its budget of `max_chars` bytes (once the budget
/// leaves room for the `"..."` of a cut).
pub proof fn law_handoff_fits(entries: Seq<TranscriptEntry>, max_chars: int)
    requires
        max_chars >= 3,
    ensures
        byte_len(handoff_text(entries, max_chars)) <= max_chars,
{
    law_ellipsize_fits(join(handoff_sections(harvest(entries)), "\n\n"@), max_chars);
}


/// A sentence states a working theory: "i think the", "the issue is",
/// "the problem is" or "turns out" in its lower-cased text.
pub open spec fn states_theory(l: Seq<char>) -> bool {
    contains(l, "turns out"@) || contains(l, "the problem is"@) || contains(l, "the issue is"@) || contains(
        l,
        "i think the"@,
    )
}

/// A line reads as an action item: a bullet, a `TODO`, or (lower-cased) a
/// line opening with "next", "still need" or "remaining".
pub open spec fn action_item(t: Seq<char>) -> bool {
    starts_with(lowercase_of(t), "remaining"@) || starts_with(lowercase_of(t), "still need"@) || starts_with(
        lowercase_of(t),
        "next"@,
    ) || starts_with(t, "TODO"@) || starts_with(t, "*"@) || starts_with(t, "-"@)
}

/// A (lower-cased) line names unfinished work.
pub open spec fn names_unfinished(l: Seq<char>) -> bool {
    contains(l, "not yet implemented"@) || contains(l, "left to do"@) || contains(l, "remaining"@) || contains(
        l,
        "next step"@,
    ) || contains(l, "todo"@) || contains(l, "haven't yet"@) || contains(l, "still need"@)
}

/// A sentence becomes a working hypothesis exactly when it is longer than
/// 30 bytes and states a theory; the hypothesis is the sentence cut to 150
/// bytes.
pub proof fn law_hypothesis_sentences(s: Seq<char>)
    ensures
        hypothesis_of(s) is Some <==> (byte_len(s) > 30 && states_theory(lowercase_of(s))),
        hypothesis_of(s) is Some ==> hypothesis_of(s) == Some(ellipsize(s, 150)),
{
}

/// A line becomes an unfinished thread exactly when it reads as an action
/// item, names unfinished work and is longer than 20 bytes; the thread is
/// the line cut to 150 bytes.
pub proof fn law_unfinished_lines(t: Seq<char>)
    ensures
        unfinished_of(t) is Some <==> (action_item(t) && names_unfinished(lowercase_of(t)) && byte_len(t) > 20),
        unfinished_of(t) is Some ==> unfinished_of(t) == Some(ellipsize(t, 150)),
{
}

/// Every sentence that states a theory and is longer than 30 bytes is
/// among the hypotheses of the sentences, cut to 150 bytes.
pub proof fn law_hypotheses_kept(ss: Seq<Seq<char>>, k: int)
    requires
        0 <= k < ss.len(),
        byte_len(ss[k]) > 30,
        states_theory(lowercase_of(ss[k])),
    ensures
        hypotheses_in(ss).contains(ellipsize(ss[k], 150)),
    decreases ss.len(),
{
    let prev = hypotheses_in(ss.drop_last());
    if k == ss.len() - 1 {
        assert(hypotheses_in(ss) == prev.push(ellipsize(ss[k], 150)));
        assert(hypotheses_in(ss)[prev.len() as int] == ellipsize(ss[k], 150));
    } else {
        law_hypotheses_kept(ss.drop_last(), k);
        let j = choose|j: int| 0 <= j < prev.len() && prev[j] == ellipsize(ss[k], 150);
        match hypothesis_of(ss.last()) {
            Some(x) => assert(hypotheses_in(ss)[j] == prev[j]),
            None => {},
        }
    }
}

/// Every line that, trimmed, reads as an action item naming unfinished
/// work, is longer than 20 bytes and is not an insight title, is among the
/// unfinished threads of the lines, cut to 150 bytes.
pub proof fn law_unfinished_kept(ls: Seq<Seq<char>>, k: int)
    requires
        0 <= k < ls.len(),
        !contains(trim(ls[k]), "\u{2605} Insight"@),
        action_item(trim(ls[k])),
        names_unfinished(lowercase_of(trim(ls[k]))),
        byte_len(trim(ls[k])) > 20,
    ensures
        unfinished_in(ls).contains(ellipsize(trim(ls[k]), 150)),
    decreases ls.len(),
{
    let prev = unfinished_in(ls.drop_last());
    let t = trim(ls[k]);
    if k == ls.len() - 1 {
        assert(unfinished_in(ls) == prev.push(ellipsize(t, 150)));
        assert(unfinished_in(ls)[prev.len() as int] == ellipsize(t, 150));
    } else {
        assert(ls.drop_last()[k] == ls[k]);
        law_unfinished_kept(ls.drop_last(), k);
        let j = choose|j: int| 0 <= j < prev.len() && prev[j] == ellipsize(t, 150);
        let last = trim(ls.last());
        if !contains(last, "\u{2605} Insight"@) {
            match unfinished_of(last) {
                Some(x) => assert(unfinished_in(ls)[j] == prev[j]),
                None => {},
            }
        }
    }
}
} // verus!
