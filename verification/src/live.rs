//! Live mode: cleaning what whisper-stream prints, line by line, and choosing
//! which lines get typed.
use vstd::prelude::*;
use crate::text::{
    chars_of, collapse_whitespace, collapse_ws, match_at, str_eq, string_of, trim, trim_bounds,
    words, words_of,
};
use crate::config::Config;
use crate::text::{decimal, u64_to_decimal};
use crate::transcript::{push_arg, strip_ansi, strip_ansi_chars};

verus! {

broadcast use vstd::seq_lib::group_seq_properties;

/// Whether the live stream is running.
#[derive(Debug, Clone, Copy, PartialEq, Eq, Structural)]
pub enum LiveState {
    Idle,
    Running,
}

/// `s` from index `i` on, without the bracketed parts: a `[` opens a part,
/// the next `]` closes it, and both brackets go with it. `skip` says
/// whether a part is open.
pub open spec fn unbracketed_from(s: Seq<char>, i: int, skip: bool) -> Seq<char>
    decreases s.len() - i,
{
    if i < 0 || i >= s.len() {
        seq![]
    } else {
        let c = s[i];
        let skipping = skip || c == '[';
        let rest = unbracketed_from(s, i + 1, skipping && c != ']');
        if skipping { rest } else { seq![c] + rest }
    }
}

/// The text without its bracketed parts (whisper's `[00:00:01.000 --> ...]`).
pub open spec fn unbracketed(s: Seq<char>) -> Seq<char> {
    unbracketed_from(s, 0, false)
}

/// Removes the bracketed parts of a text.
pub fn regex_remove_timestamps(s: &str) -> (r: String)
    ensures r@ == unbracketed(s@),
{
    let v = chars_of(s);
    let mut out: Vec<char> = Vec::new();
    let mut skip = false;
    let mut i: usize = 0;
    while i < v.len()
        invariant
            i <= v@.len(),
            v@ == s@,
            out@ + unbracketed_from(v@, i as int, skip) == unbracketed(v@),
        decreases v@.len() - i,
    {
        let c = v[i];
        if c == '[' {
            skip = true;
        }
        if !skip {
            let ghost o = out@;
            out.push(c);
            assert(o + (seq![c] + unbracketed_from(v@, i + 1, false)) == out@ + unbracketed_from(v@, i + 1, false));
        }
        if c == ']' {
            skip = false;
        }
        i += 1;
    }
    assert(out@ + Seq::<char>::empty() == out@);
    string_of(out.as_slice())
}

/// A line of whisper-stream output as it is typed: no escape sequences, no
/// bracketed parts, trimmed, nothing when it then starts with `[` or `(`
/// (a tag such as "(music)"), and single spaces between words.
pub open spec fn cleaned(raw: Seq<char>) -> Seq<char> {
    let t = trim(unbracketed(strip_ansi(raw)));
    if t.len() > 0 && (t[0] == '[' || t[0] == '(') { seq![] } else { collapse_ws(t) }
}

/// Cleans one line of whisper-stream output.
pub fn clean_stream_output(raw: &str) -> (r: String)
    ensures r@ == cleaned(raw@),
{
    let v = chars_of(raw);
    let no_ansi = string_of(strip_ansi_chars(v.as_slice()).as_slice());
    let no_tags = chars_of(regex_remove_timestamps(no_ansi.as_str()).as_str());
    let (a, b) = trim_bounds(no_tags.as_slice());
    let t = vstd::slice::slice_subrange(no_tags.as_slice(), a, b);
    assert(t@ == trim(no_tags@));
    if t.len() > 0 && (t[0] == '[' || t[0] == '(') {
        return String::new();
    }
    string_of(collapse_whitespace(t).as_slice())
}

/// How many of the words equal `w`.
pub open spec fn count_of(ws: Seq<Seq<char>>, w: Seq<char>) -> nat
    decreases ws.len(),
{
    if ws.len() == 0 { 0 } else { count_of(ws.drop_last(), w) + if ws.last() == w { 1nat } else { 0nat } }
}

/// At least four words, and the first one makes up more than half of them:
/// the repetition whisper produces on noise.
pub open spec fn hallucinated(t: Seq<char>) -> bool {
    let ws = words(t);
    ws.len() >= 4 && count_of(ws, ws[0]) > ws.len() / 2
}

fn same_chars(a: &[char], b: &[char]) -> (r: bool)
    ensures r == (a@ == b@),
{
    if a.len() != b.len() {
        return false;
    }
    let r = match_at(a, b, 0);
    assert(a@.subrange(0, b@.len() as int) == a@);
    r
}

/// Whether a text looks like a whisper hallucination (see `hallucinated`).
pub fn is_hallucination(text: &str) -> (r: bool)
    ensures r == hallucinated(text@),
{
    let ws = words_of(chars_of(text).as_slice());
    if ws.len() < 4 {
        return false;
    }
    let ghost all = words(text@);
    let first = &ws[0];
    let mut n: usize = 0;
    let mut i: usize = 0;
    while i < ws.len()
        invariant
            i <= ws@.len(),
            ws@.len() == all.len(),
            forall|k: int| 0 <= k < ws@.len() ==> (#[trigger] ws@[k])@ == all[k],
            first@ == all[0],
            n == count_of(all.take(i as int), all[0]),
            n <= i,
        decreases ws@.len() - i,
    {
        assert(all.take(i as int + 1).drop_last() == all.take(i as int));
        assert(all.take(i as int + 1).last() == all[i as int]);
        if same_chars(ws[i].as_slice(), first.as_slice()) {
            n += 1;
        }
        i += 1;
    }
    assert(all.take(all.len() as int) == all);
    n > ws.len() / 2
}

/// What live mode keeps of the stream: the last line it typed.
pub struct StreamFilter {
    pub last_injected: String,
}

/// The line to type for a raw line of output, given the last one typed: none
/// when it cleans to nothing, repeats the last one or is a hallucination.
pub open spec fn stream_pick(last: Seq<char>, raw: Seq<char>) -> Option<Seq<char>> {
    let t = cleaned(raw);
    if t.len() == 0 || t == last || hallucinated(t) { None } else { Some(t) }
}

impl StreamFilter {
    pub fn new() -> (f: Self)
        ensures f.last_injected@ == Seq::<char>::empty(),
    {
        StreamFilter { last_injected: String::new() }
    }

    /// Takes one raw line; returns the text to type, if any, and remembers it.
    pub fn accept(&mut self, raw: &str) -> (r: Option<String>)
        ensures
            match r {
                Some(t) => stream_pick(old(self).last_injected@, raw@) == Some(t@)
                    && final(self).last_injected@ == t@,
                None => stream_pick(old(self).last_injected@, raw@) is None
                    && final(self).last_injected@ == old(self).last_injected@,
            },
    {
        let text = clean_stream_output(raw);
        if text.as_str().is_empty() || str_eq(text.as_str(), self.last_injected.as_str())
            || is_hallucination(text.as_str()) {
            return None;
        }
        self.last_injected = text.clone();
        Some(text)
    }
}

/// The same line never reaches the keyboard twice in a row.
pub proof fn lemma_no_immediate_repeat(last: Seq<char>, raw1: Seq<char>, raw2: Seq<char>)
    requires stream_pick(last, raw1) is Some,
    ensures stream_pick(stream_pick(last, raw1)->0, raw2) != stream_pick(last, raw1),
{
}

/// The threads whisper-stream gets: the configured number, otherwise the
/// machine's parallelism up to 4 (4 when it is unknown).
pub open spec fn stream_thread_count(c: Config, parallelism: Option<usize>) -> nat {
    if c.whisper_threads > 0 {
        c.whisper_threads as nat
    } else {
        match parallelism {
            Some(n) => if n < 4 { n as nat } else { 4 },
            None => 4,
        }
    }
}

/// whisper-stream's arguments: the model, the threads, 3 s steps over a
/// 10 s window keeping 200 ms, the language, and no special tokens.
pub open spec fn stream_arg_list(model: Seq<char>, threads: nat, language: Seq<char>) -> Seq<Seq<char>> {
    seq![
        "--model"@, model, "--threads"@, decimal(threads), "--step"@, "3000"@, "--length"@, "10000"@,
        "--keep"@, "200"@, "--language"@, language, "--print-special"@, "false"@,
    ]
}

pub fn stream_threads(config: &Config, parallelism: Option<usize>) -> (n: usize)
    ensures n as nat == stream_thread_count(*config, parallelism),
{
    if config.whisper_threads > 0 {
        config.whisper_threads as usize
    } else {
        match parallelism {
            Some(n) => if n < 4 { n } else { 4 },
            None => 4,
        }
    }
}

/// The arguments whisper-stream is started with.
pub fn stream_args(config: &Config, parallelism: Option<usize>) -> (r: Vec<String>)
    ensures
        r@.map_values(|s: String| s@) == stream_arg_list(
            config.model_path@,
            stream_thread_count(*config, parallelism),
            config.language@,
        ),
{
    let threads = stream_threads(config, parallelism);
    let mut v: Vec<String> = Vec::new();
    push_arg(&mut v, "--model");
    push_arg(&mut v, config.model_path.as_str());
    push_arg(&mut v, "--threads");
    push_arg(&mut v, u64_to_decimal(threads as u64).as_str());
    push_arg(&mut v, "--step");
    push_arg(&mut v, "3000");
    push_arg(&mut v, "--length");
    push_arg(&mut v, "10000");
    push_arg(&mut v, "--keep");
    push_arg(&mut v, "200");
    push_arg(&mut v, "--language");
    push_arg(&mut v, config.language.as_str());
    push_arg(&mut v, "--print-special");
    push_arg(&mut v, "false");
    assert(v@.map_values(|s: String| s@) =~= stream_arg_list(
        config.model_path@,
        stream_thread_count(*config, parallelism),
        config.language@,
    ));
    v
}

} // verus!
