//! The plain handoff: user requests, modified files, tools used and the last
//! response, read from a transcript that the caller has parsed into
//! `TranscriptEntry` values. `extract` builds it for any budget; the copy
//! saved before a compaction is the same text within 3000 bytes.
use crate::commands::extract_handoff::{
    bullet_all, bullets_exec, insert_sorted, insert_sorted_exec, Block, TranscriptEntry,
};
use crate::markdown::{chars_eq, ellipsize, ellipsize_exec, law_ellipsize_fits, take_at_most};
use crate::text::{
    append, byte_len, chars_of, fit_chars, fit_chars_exec, join, join_exec, lemma_chars_dv,
    slice_of, starts_with, starts_with_exec, string_of, trim, trim_exec,
};
use vstd::prelude::*;

verus! {

/// A user text worth keeping: not empty, not injected by the system.
pub open spec fn kept_prompt(t: Seq<char>) -> bool {
    t.len() > 0 && !starts_with(t, "<system-reminder>"@)
}

/// A prompt longer than 200 bytes keeps its first 197, followed by `...`.
pub open spec fn cut_prompt(t: Seq<char>) -> Seq<char> {
    ellipsize(t, 200)
}

/// The prompts after a user message's texts.
pub open spec fn prompts_after(prompts: Seq<Seq<char>>, raws: Seq<String>) -> Seq<Seq<char>>
    decreases raws.len(),
{
    if raws.len() == 0 {
        prompts
    } else {
        let p = prompts_after(prompts, raws.drop_last());
        let t = trim(raws.last()@);
        if kept_prompt(t) {
            p.push(cut_prompt(t))
        } else {
            p
        }
    }
}

/// What is read from a transcript: prompts, assistant texts, tools used and
/// modified files (the last two sorted, each once).
pub type Gathered = (Seq<Seq<char>>, Seq<Seq<char>>, Seq<Seq<char>>, Seq<Seq<char>>);

/// What an assistant message's blocks add.
pub open spec fn blocks_after(g: Gathered, blocks: Seq<Block>) -> Gathered
    decreases blocks.len(),
{
    if blocks.len() == 0 {
        g
    } else {
        let p = blocks_after(g, blocks.drop_last());
        match blocks.last() {
            Block::Text(raw) => {
                let t = trim(raw@);
                if t.len() > 0 {
                    (p.0, p.1.push(t), p.2, p.3)
                } else {
                    p
                }
            },
            Block::ToolUse { name, file_path } => {
                let tools = if name@.len() > 0 {
                    insert_sorted(p.2, name@)
                } else {
                    p.2
                };
                let files = if (name@ == "Edit"@ || name@ == "Write"@) && file_path is Some {
                    insert_sorted(p.3, file_path.unwrap()@)
                } else {
                    p.3
                };
                (p.0, p.1, tools, files)
            },
            Block::Other => p,
        }
    }
}

/// What a whole transcript gives.
pub open spec fn gathered(entries: Seq<TranscriptEntry>) -> Gathered
    decreases entries.len(),
{
    if entries.len() == 0 {
        (seq![], seq![], seq![], seq![])
    } else {
        let g = gathered(entries.drop_last());
        match entries.last() {
            TranscriptEntry::User(raws) => (prompts_after(g.0, raws@), g.1, g.2, g.3),
            TranscriptEntry::Assistant(blocks) => blocks_after(g, blocks@),
            TranscriptEntry::Other => g,
        }
    }
}

/// The requests: the first three, and when there are more, a `...` line and
/// the last two.
pub open spec fn requests_text(ps: Seq<Seq<char>>) -> Seq<char> {
    join(bullet_all(take_at_most(ps, 3)), "\n"@) + if ps.len() > 3 {
        "\n...\n"@ + join(bullet_all(ps.skip(ps.len() - 2)), "\n"@)
    } else {
        seq![]
    }
}

/// The last response, cut to 800 bytes and marked when longer.
pub open spec fn summary_text(t: Seq<char>) -> Seq<char> {
    if byte_len(t) > 800 {
        t.take(fit_chars(t, 800) as int) + "..."@
    } else {
        t
    }
}

/// The sections of the handoff.
pub open spec fn sections_of(g: Gathered) -> Seq<Seq<char>> {
    (if g.0.len() > 0 {
        seq!["## User Requests\n\n"@ + requests_text(g.0)]
    } else {
        seq![]
    }) + (if g.3.len() > 0 {
        seq!["## Files Modified\n\n"@ + join(bullet_all(g.3), "\n"@)]
    } else {
        seq![]
    }) + (if g.2.len() > 0 {
        seq!["## Tools Used\n\n"@ + join(g.2, ", "@)]
    } else {
        seq![]
    }) + (if g.1.len() > 0 {
        seq!["## Last Response Summary\n\n"@ + summary_text(g.1.last())]
    } else {
        seq![]
    })
}

/// The sections joined by blank lines, cut to `max_chars` bytes.
pub open spec fn plain_handoff(entries: Seq<TranscriptEntry>, max_chars: int) -> Seq<char> {
    ellipsize(join(sections_of(gathered(entries)), "\n\n"@), max_chars)
}

/// What `extract_handoff_content` returns.
pub open spec fn handoff_content(entries: Seq<TranscriptEntry>) -> Seq<char> {
    plain_handoff(entries, 3000)
}

struct Gather {
    prompts: Vec<Vec<char>>,
    texts: Vec<Vec<char>>,
    tools: Vec<Vec<char>>,
    files: Vec<Vec<char>>,
}

impl Gather {
    spec fn lists(&self) -> Gathered {
        (self.prompts.deep_view(), self.texts.deep_view(), self.tools.deep_view(), self.files.deep_view())
    }
}

fn push_chars(l: &mut Vec<Vec<char>>, x: Vec<char>)
    ensures
        final(l).deep_view() == old(l).deep_view().push(x@),
{
    let ghost before = l.deep_view();
    proof {
        lemma_chars_dv(x);
    }
    let ghost xv = x@;
    l.push(x);
    assert(l.deep_view() =~= before.push(xv));
}

fn gather_user(g: &mut Gather, raws: &Vec<String>)
    ensures
        final(g).lists() == ({
            let o = old(g).lists();
            (prompts_after(o.0, raws@), o.1, o.2, o.3)
        }),
{
    let ghost o = g.lists();
    let marker = chars_of("<system-reminder>");
    let mut i: usize = 0;
    while i < raws.len()
        invariant
            i <= raws.len(),
            marker@ == "<system-reminder>"@,
            g.lists() == (prompts_after(o.0, raws@.take(i as int)), o.1, o.2, o.3),
        decreases raws.len() - i,
    {
        assert(raws@.take(i + 1).drop_last() =~= raws@.take(i as int));
        let t = trim_exec(&chars_of(raws[i].as_str()));
        if t.len() > 0 && !starts_with_exec(&t, &marker) {
            push_chars(&mut g.prompts, ellipsize_exec(t, 200));
        }
        i += 1;
    }
    assert(raws@.take(raws.len() as int) =~= raws@);
}

fn gather_assistant(g: &mut Gather, blocks: &Vec<Block>)
    ensures
        final(g).lists() == blocks_after(old(g).lists(), blocks@),
{
    let ghost o = g.lists();
    let mut i: usize = 0;
    while i < blocks.len()
        invariant
            i <= blocks.len(),
            g.lists() == blocks_after(o, blocks@.take(i as int)),
        decreases blocks.len() - i,
    {
        assert(blocks@.take(i + 1).drop_last() =~= blocks@.take(i as int));
        match &blocks[i] {
            Block::Text(raw) => {
                let t = trim_exec(&chars_of(raw.as_str()));
                if t.len() > 0 {
                    push_chars(&mut g.texts, t);
                }
            },
            Block::ToolUse { name, file_path } => {
                let n = chars_of(name.as_str());
                if n.len() > 0 {
                    insert_sorted_exec(&mut g.tools, chars_of(name.as_str()));
                }
                proof {
                    reveal_strlit("Edit");
                    reveal_strlit("Write");
                }
                let edits = chars_eq(&n, &chars_of("Edit")) || chars_eq(&n, &chars_of("Write"));
                if edits {
                    if let Some(fp) = file_path {
                        insert_sorted_exec(&mut g.files, chars_of(fp.as_str()));
                    }
                }
            },
            Block::Other => {},
        }
        i += 1;
    }
    assert(blocks@.take(blocks.len() as int) =~= blocks@);
}

fn gather(entries: &Vec<TranscriptEntry>) -> (r: Gather)
    ensures
        r.lists() == gathered(entries@),
{
    let mut g = Gather { prompts: Vec::new(), texts: Vec::new(), tools: Vec::new(), files: Vec::new() };
    assert(g.lists() =~= gathered(entries@.take(0)));
    let mut i: usize = 0;
    while i < entries.len()
        invariant
            i <= entries.len(),
            g.lists() == gathered(entries@.take(i as int)),
        decreases entries.len() - i,
    {
        assert(entries@.take(i + 1).drop_last() =~= entries@.take(i as int));
        match &entries[i] {
            TranscriptEntry::User(raws) => gather_user(&mut g, raws),
            TranscriptEntry::Assistant(blocks) => gather_assistant(&mut g, blocks),
            TranscriptEntry::Other => {},
        }
        i += 1;
    }
    assert(entries@.take(entries.len() as int) =~= entries@);
    g
}

fn requests_exec(ps: &Vec<Vec<char>>) -> (r: Vec<char>)
    ensures
        r@ == requests_text(ps.deep_view()),
{
    let nl = chars_of("\n");
    let mut s = join_exec(&bullets_exec(ps, 3), &nl);
    let n = ps.len();
    if n > 3 {
        append(&mut s, &chars_of("\n...\n"));
        let mut last: Vec<Vec<char>> = Vec::new();
        proof {
            lemma_chars_dv(ps@[n - 2]);
            lemma_chars_dv(ps@[n - 1]);
        }
        push_chars(&mut last, slice_of(&ps[n - 2], 0, ps[n - 2].len()));
        push_chars(&mut last, slice_of(&ps[n - 1], 0, ps[n - 1].len()));
        assert(ps@[n - 2]@.subrange(0, ps@[n - 2]@.len() as int) =~= ps@[n - 2]@);
        assert(ps@[n - 1]@.subrange(0, ps@[n - 1]@.len() as int) =~= ps@[n - 1]@);
        assert(last.deep_view() =~= ps.deep_view().skip(n - 2));
        append(&mut s, &join_exec(&bullets_exec(&last, 2), &nl));
        assert(take_at_most(last.deep_view(), 2) =~= last.deep_view());
    } else {
        assert(s@ =~= s@ + Seq::<char>::empty());
    }
    s
}

fn summary_exec(t: &Vec<char>) -> (r: Vec<char>)
    ensures
        r@ == summary_text(t@),
{
    let (k, _) = fit_chars_exec(t, 800);
    proof {
        crate::text::lemma_fit_chars(t@, 800);
    }
    if k < t.len() {
        proof {
            crate::text::lemma_byte_len_prefix(t@, k + 1);
        }
        let mut s = slice_of(t, 0, k);
        append(&mut s, &chars_of("..."));
        s
    } else {
        assert(t@.take(k as int) =~= t@);
        slice_of(t, 0, t.len())
    }
}

fn plain_exec(entries: &Vec<TranscriptEntry>, max_chars: usize) -> (r: String)
    ensures
        r@ == plain_handoff(entries@, max_chars as int),
{
    let g = gather(entries);
    let ghost gv = g.lists();
    let mut sections: Vec<Vec<char>> = Vec::new();
    if g.prompts.len() > 0 {
        let mut s = chars_of("## User Requests\n\n");
        append(&mut s, &requests_exec(&g.prompts));
        push_chars(&mut sections, s);
    }
    if g.files.len() > 0 {
        let mut s = chars_of("## Files Modified\n\n");
        let all = bullets_exec(&g.files, g.files.len());
        assert(take_at_most(gv.3, g.files.len() as int) =~= gv.3);
        append(&mut s, &join_exec(&all, &chars_of("\n")));
        push_chars(&mut sections, s);
    }
    if g.tools.len() > 0 {
        let mut s = chars_of("## Tools Used\n\n");
        append(&mut s, &join_exec(&g.tools, &chars_of(", ")));
        push_chars(&mut sections, s);
    }
    let nt = g.texts.len();
    if nt > 0 {
        let mut s = chars_of("## Last Response Summary\n\n");
        proof {
            lemma_chars_dv(g.texts@[nt - 1]);
        }
        append(&mut s, &summary_exec(&g.texts[nt - 1]));
        push_chars(&mut sections, s);
    }
    assert(sections.deep_view() =~= sections_of(gv));
    let all = join_exec(&sections, &chars_of("\n\n"));
    string_of(ellipsize_exec(all, max_chars))
}

/// Builds the plain handoff of a transcript: the user requests (first
/// three, then the last two, each cut to 200 bytes with `...`), modified
/// files, tools used and the last response, joined by blank lines and cut
/// to `max_chars` bytes.
pub fn extract(entries: &Vec<TranscriptEntry>, max_chars: usize) -> (r: String)
    requires
        max_chars >= 3,
    ensures
        r@ == plain_handoff(entries@, max_chars as int),
{
    plain_exec(entries, max_chars)
}

/// The handoff saved before a compaction: the same text as `extract`, cut
/// to 3000 bytes.
pub fn extract_handoff_content(entries: &Vec<TranscriptEntry>) -> (r: String)
    ensures
        r@ == handoff_content(entries@),
{
    plain_exec(entries, 3000)
}

/// A plain handoff never exceeds its budget of `max_chars` bytes (once the
/// budget leaves room for the `...` of a cut).
pub proof fn law_plain_handoff_fits(entries: Seq<TranscriptEntry>, max_chars: int)
    requires
        max_chars >= 3,
    ensures
        byte_len(plain_handoff(entries, max_chars)) <= max_chars,
{
    law_ellipsize_fits(join(sections_of(gathered(entries)), "\n\n"@), max_chars);
}

} // verus!
