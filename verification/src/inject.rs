//! Typing the text: what is typed, and in which keystrokes.
use vstd::prelude::*;
use crate::config::Config;
use crate::text::{
    chars_of, owned, push_str, split, split_chars, string_of, trim,
    trim_string,
};
use crate::typography::{apply_french_typography, capitalize_first, capitalized, french_typography};

verus! {

broadcast use vstd::seq_lib::group_seq_properties;

/// The text as it is typed: trimmed, its first letter capitalised when
/// asked, a leading space added when asked, then French typography when
/// asked; nothing is typed when the trimmed text is empty.
pub open spec fn prepared(text: Seq<char>, c: Config) -> Option<Seq<char>> {
    let t = trim(text);
    if t.len() == 0 {
        None
    } else {
        let t1 = if c.auto_capitalize { capitalized(t) } else { t };
        let t2 = if c.prefix_space { " "@ + t1 } else { t1 };
        Some(if c.french_typography { french_typography(t2) } else { t2 })
    }
}

/// The text to type for a transcription, if any.
pub fn prepare_injection(text: &str, config: &Config) -> (r: Option<String>)
    ensures
        match r {
            Some(t) => prepared(text@, *config) == Some(t@),
            None => prepared(text@, *config) is None,
        },
{
    let t = trim_string(text);
    if t.as_str().is_empty() {
        return None;
    }
    let t1 = if config.auto_capitalize { capitalize_first(t.as_str()) } else { t };
    let t2 = if config.prefix_space {
        let mut s = owned(" ");
        push_str(&mut s, t1.as_str());
        s
    } else {
        t1
    };
    let t3 = if config.french_typography { apply_french_typography(t2.as_str()) } else { t2 };
    Some(t3)
}

/// The pause before typing, in milliseconds: the configured one, 80 when it is 0.
pub fn inject_delay(config: &Config) -> (ms: u64)
    ensures ms == if config.inject_delay_ms > 0 { config.inject_delay_ms } else { 80 },
{
    if config.inject_delay_ms > 0 { config.inject_delay_ms } else { 80 }
}

/// A keystroke batch: a text typed at once, or the Enter key.
pub enum Keystroke {
    Text(String),
    Enter,
}

/// A keystroke as a value: the text typed, or `None` for Enter.
pub open spec fn stroke_view(k: Keystroke) -> Option<Seq<char>> {
    match k {
        Keystroke::Text(s) => Some(s@),
        Keystroke::Enter => None,
    }
}

/// The longest run of characters typed at once.
pub const CHUNK_SIZE: usize = 500;

/// The characters in runs of `n` (the last one shorter).
pub open spec fn char_chunks(s: Seq<char>, n: nat) -> Seq<Seq<char>>
    decreases s.len(),
{
    if s.len() == 0 || n == 0 {
        seq![]
    } else if s.len() <= n {
        seq![s]
    } else {
        seq![s.take(n as int)] + char_chunks(s.skip(n as int), n)
    }
}

/// The keystrokes of one line: nothing for an empty line; a line over 500
/// characters goes in runs of 500 characters; a shorter one goes at once.
pub open spec fn line_strokes(line: Seq<char>) -> Seq<Option<Seq<char>>> {
    if line.len() == 0 {
        seq![]
    } else if line.len() > CHUNK_SIZE {
        char_chunks(line, CHUNK_SIZE as nat).map_values(|c: Seq<char>| Some(c))
    } else {
        seq![Some(line)]
    }
}

/// The keystrokes of the lines, with Enter between consecutive lines.
pub open spec fn lines_strokes(ls: Seq<Seq<char>>) -> Seq<Option<Seq<char>>>
    decreases ls.len(),
{
    if ls.len() == 0 {
        seq![]
    } else if ls.len() == 1 {
        line_strokes(ls[0])
    } else {
        lines_strokes(ls.drop_last()) + seq![None] + line_strokes(ls.last())
    }
}

/// The keystrokes that type `text`: its lines (split at each newline) with
/// Enter between them, and a final Enter when `auto_enter` is set.
pub open spec fn strokes(text: Seq<char>, auto_enter: bool) -> Seq<Option<Seq<char>>> {
    lines_strokes(split(text, '\n')) + if auto_enter { seq![None] } else { seq![] }
}

fn push_stroke(v: &mut Vec<Keystroke>, k: Keystroke)
    ensures final(v)@.map_values(|s: Keystroke| stroke_view(s))
        == old(v)@.map_values(|s: Keystroke| stroke_view(s)).push(stroke_view(k)),
{
    let ghost before = v@;
    let ghost kv = stroke_view(k);
    v.push(k);
    assert(v@.map_values(|s: Keystroke| stroke_view(s)) =~= before.map_values(|s: Keystroke| stroke_view(s)).push(kv));
}

proof fn lemma_chunks_step(b: Seq<char>, k: int)
    requires 0 <= k < b.len(),
    ensures
        char_chunks(b.skip(k), CHUNK_SIZE as nat) == if b.len() - k <= CHUNK_SIZE {
            seq![b.skip(k)]
        } else {
            seq![b.subrange(k, k + CHUNK_SIZE)] + char_chunks(b.skip(k + CHUNK_SIZE), CHUNK_SIZE as nat)
        },
{
    let s = b.skip(k);
    if s.len() > CHUNK_SIZE {
        assert(s.take(CHUNK_SIZE as int) == b.subrange(k, k + CHUNK_SIZE));
        assert(s.skip(CHUNK_SIZE as int) == b.skip(k + CHUNK_SIZE));
    }
}

/// Appends the keystrokes of one line.
fn push_line(v: &mut Vec<Keystroke>, line: &[char])
    ensures final(v)@.map_values(|s: Keystroke| stroke_view(s))
        == old(v)@.map_values(|s: Keystroke| stroke_view(s)) + line_strokes(line@),
{
    let ghost start = old(v)@.map_values(|s: Keystroke| stroke_view(s));
    if line.len() == 0 {
        assert(start + Seq::<Option<Seq<char>>>::empty() == start);
        return;
    }
    let n = line.len();
    if n > CHUNK_SIZE {
        let ghost b = line@;
        let ghost all = char_chunks(b, CHUNK_SIZE as nat);
        let mut k: usize = 0;
        while k < n
            invariant
                n == b.len(),
                line@ == b,
                k <= n,
                v@.map_values(|s: Keystroke| stroke_view(s)) + char_chunks(b.skip(k as int), CHUNK_SIZE as nat)
                    .map_values(|c: Seq<char>| Some(c))
                    == start + all.map_values(|c: Seq<char>| Some(c)),
            decreases n - k,
        {
            proof { lemma_chunks_step(b, k as int); }
            let end = if n - k <= CHUNK_SIZE { n } else { k + CHUNK_SIZE };
            let piece = string_of(vstd::slice::slice_subrange(line, k, end));
            assert(piece@ == b.subrange(k as int, end as int));
            let ghost before = v@.map_values(|s: Keystroke| stroke_view(s));
            push_stroke(v, Keystroke::Text(piece));
            proof {
                let rest = char_chunks(b.skip(end as int), CHUNK_SIZE as nat).map_values(|c: Seq<char>| Some(c));
                if end == n {
                    assert(b.skip(k as int) == b.subrange(k as int, end as int));
                    assert(b.skip(end as int) == Seq::<char>::empty());
                    assert(rest == Seq::<Option<Seq<char>>>::empty());
                }
                assert(char_chunks(b.skip(k as int), CHUNK_SIZE as nat).map_values(|c: Seq<char>| Some(c))
                    == seq![Some(b.subrange(k as int, end as int))] + rest);
                assert(before.push(Some(b.subrange(k as int, end as int))) + rest
                    == before + (seq![Some(b.subrange(k as int, end as int))] + rest));
            }
            k = end;
        }
        assert(b.skip(n as int) == Seq::<char>::empty());
        assert(v@.map_values(|s: Keystroke| stroke_view(s))
            + Seq::<Option<Seq<char>>>::empty() == v@.map_values(|s: Keystroke| stroke_view(s)));
    } else {
        push_stroke(v, Keystroke::Text(string_of(line)));
    }
}

proof fn lemma_lines_strokes_step(ls: Seq<Seq<char>>, i: int)
    requires 0 <= i < ls.len(),
    ensures
        lines_strokes(ls.take(i + 1)) == if i == 0 {
            Seq::<Option<Seq<char>>>::empty() + line_strokes(ls[i])
        } else {
            lines_strokes(ls.take(i)) + seq![None] + line_strokes(ls[i])
        },
{
    let t = ls.take(i + 1);
    assert(t.drop_last() == ls.take(i));
    assert(t.last() == ls[i]);
    if i == 0 {
        assert(Seq::<Option<Seq<char>>>::empty() + line_strokes(ls[0]) == line_strokes(ls[0]));
    }
}

/// The keystrokes that type `text`, with a final Enter when `auto_enter` is set.
#[verifier::spinoff_prover]
pub fn injection_plan(text: &str, auto_enter: bool) -> (r: Vec<Keystroke>)
    ensures r@.map_values(|s: Keystroke| stroke_view(s)) == strokes(text@, auto_enter),
{
    let ls = split_chars(chars_of(text).as_slice(), '\n');
    let ghost lsv = split(text@, '\n');
    proof { crate::text::lemma_split_nonempty(text@, '\n'); }
    let mut v: Vec<Keystroke> = Vec::new();
    let mut i: usize = 0;
    while i < ls.len()
        invariant
            i <= ls@.len(),
            ls@.len() == lsv.len(),
            forall|k: int| 0 <= k < ls@.len() ==> (#[trigger] ls@[k])@ == lsv[k],
            v@.map_values(|s: Keystroke| stroke_view(s)) == lines_strokes(lsv.take(i as int)),
        decreases ls@.len() - i,
    {
        proof { lemma_lines_strokes_step(lsv, i as int); }
        if i > 0 {
            push_stroke(&mut v, Keystroke::Enter);
        } else {
            assert(v@.map_values(|s: Keystroke| stroke_view(s)) =~= Seq::<Option<Seq<char>>>::empty());
        }
        push_line(&mut v, ls[i].as_slice());
        i += 1;
    }
    assert(lsv.take(lsv.len() as int) == lsv);
    if auto_enter {
        push_stroke(&mut v, Keystroke::Enter);
    } else {
        assert(v@.map_values(|s: Keystroke| stroke_view(s)) + Seq::<Option<Seq<char>>>::empty()
            == v@.map_values(|s: Keystroke| stroke_view(s)));
    }
    v
}

} // verus!
