//! Turning what whisper prints into dictated text.
use vstd::prelude::*;
use crate::binary32;
use crate::config::Config;
use crate::text::{
    decimal, owned, str_eq, u64_to_decimal,
    chars_of, collapse_whitespace, collapse_ws, join, join_chars, lines, lines_of, match_at,
    replace_all, replace_chars, starts_with, starts_with_chars, string_of, trim, trim_bounds,
    is_ws, trim_end, trim_start, words, words_of_all,
};

verus! {

broadcast use vstd::seq_lib::group_seq_properties;

pub open spec fn is_ascii_alpha(c: char) -> bool {
    ('a' <= c && c <= 'z') || ('A' <= c && c <= 'Z')
}

pub open spec fn is_ascii_digit(c: char) -> bool {
    '0' <= c && c <= '9'
}

/// `s` with its terminal escape sequences removed, scanning from index `i`:
/// an escape character and everything after it up to and including the first
/// ASCII letter are dropped. `in_escape` says whether a sequence is open.
pub open spec fn strip_ansi_from(s: Seq<char>, i: int, in_escape: bool) -> Seq<char>
    decreases s.len() - i,
{
    if i < 0 || i >= s.len() {
        seq![]
    } else if in_escape {
        strip_ansi_from(s, i + 1, !is_ascii_alpha(s[i]))
    } else if s[i] == '\u{1b}' {
        strip_ansi_from(s, i + 1, true)
    } else {
        seq![s[i]] + strip_ansi_from(s, i + 1, false)
    }
}

/// The text without ANSI escape sequences.
pub open spec fn strip_ansi(s: Seq<char>) -> Seq<char> {
    strip_ansi_from(s, 0, false)
}

/// Removes ANSI escape sequences.
pub fn strip_ansi_chars(s: &[char]) -> (r: Vec<char>)
    ensures r@ == strip_ansi(s@),
{
    let mut out: Vec<char> = Vec::new();
    let mut in_escape = false;
    let mut i: usize = 0;
    while i < s.len()
        invariant
            i <= s@.len(),
            out@ + strip_ansi_from(s@, i as int, in_escape) == strip_ansi(s@),
        decreases s@.len() - i,
    {
        let c = s[i];
        if in_escape {
            in_escape = !(('a' <= c && c <= 'z') || ('A' <= c && c <= 'Z'));
        } else if c == '\u{1b}' {
            in_escape = true;
        } else {
            let ghost o = out@;
            out.push(c);
            assert(o + (seq![c] + strip_ansi_from(s@, i + 1, false)) == out@ + strip_ansi_from(s@, i + 1, false));
        }
        i += 1;
    }
    assert(out@ + Seq::<char>::empty() == out@);
    out
}

/// Whether every character is an ASCII digit (`true` for the empty text).
pub open spec fn all_digits(s: Seq<char>) -> bool {
    forall|k: int| 0 <= k < s.len() ==> is_ascii_digit(#[trigger] s[k])
}

pub fn all_digits_chars(s: &[char]) -> (b: bool)
    ensures b == all_digits(s@),
{
    let mut i: usize = 0;
    while i < s.len()
        invariant
            i <= s@.len(),
            forall|k: int| 0 <= k < i ==> is_ascii_digit(#[trigger] s@[k]),
        decreases s@.len() - i,
    {
        if !('0' <= s[i] && s[i] <= '9') {
            return false;
        }
        i += 1;
    }
    true
}

/// Whether a line of whisper output carries dictated text: not empty, not a
/// tag such as `[BLANK_AUDIO]` or `(Music)`, not a timestamp arrow, not a
/// bare `BLANK_AUDIO`, not a subtitle sequence number.
pub open spec fn keeps_line(line: Seq<char>) -> bool {
    let t = trim(line);
    &&& t.len() > 0
    &&& !starts_with(t, seq!['['])
    &&& !starts_with(t, seq!['('])
    &&& !starts_with(t, seq!['-', '-', '>'])
    &&& t != "BLANK_AUDIO"@
    &&& !all_digits(t)
}

/// What a kept line contributes: trimmed, without escape sequences.
pub open spec fn line_text(line: Seq<char>) -> Seq<char> {
    strip_ansi(trim(line))
}

/// The non-empty texts of the kept lines, in order.
pub open spec fn kept_texts(ls: Seq<Seq<char>>) -> Seq<Seq<char>>
    decreases ls.len(),
{
    if ls.len() == 0 {
        seq![]
    } else {
        let prev = kept_texts(ls.drop_last());
        let l = ls.last();
        if keeps_line(l) && line_text(l).len() > 0 { prev.push(line_text(l)) } else { prev }
    }
}

/// Line endings normalised: CRLF, then any lone CR, become LF.
pub open spec fn normalize_newlines(s: Seq<char>) -> Seq<char> {
    replace_all(replace_all(s, seq!['\r', '\n'], seq!['\n']), seq!['\r'], seq!['\n'])
}

/// The dictated text in whisper's standard output: the kept lines joined by
/// spaces, trimmed, with runs of white space reduced to one space.
pub open spec fn whisper_text(raw: Seq<char>) -> Seq<char> {
    collapse_ws(trim(join(kept_texts(lines(normalize_newlines(raw))), seq![' '])))
}

fn line_kept(line: &[char]) -> (r: Option<Vec<char>>)
    ensures
        r is Some <==> keeps_line(line@) && line_text(line@).len() > 0,
        r matches Some(v) ==> v@ == line_text(line@),
{
    let (a, b) = trim_bounds(line);
    let t = &line[a..b];
    assert(t@ == trim(line@));
    if t.len() == 0 || t[0] == '[' || t[0] == '(' {
        proof {
            if t@.len() > 0 {
                assert(t@.take(1) == seq![t@[0]]);
            }
        }
        return None;
    }
    let arrow = ['-', '-', '>'];
    let blank = ['B', 'L', 'A', 'N', 'K', '_', 'A', 'U', 'D', 'I', 'O'];
    proof {
        reveal_strlit("BLANK_AUDIO");
        assert(blank@ == "BLANK_AUDIO"@);
        assert(t@.take(1) == seq![t@[0]]);
    }
    if starts_with_chars(t, &arrow) {
        return None;
    }
    if t.len() == blank.len() && match_at(t, &blank, 0) {
        assert(t@.subrange(0, t@.len() as int) == t@);
        return None;
    }
    proof {
        if t@ == blank@ {
            assert(t@.subrange(0, t@.len() as int) == t@);
        }
    }
    if all_digits_chars(t) {
        return None;
    }
    let s = strip_ansi_chars(t);
    if s.len() == 0 {
        return None;
    }
    assert(t@.len() > 0);
    assert(t@.take(1)[0] == t@[0]);
    assert(seq!['['][0] == '[');
    assert(seq!['('][0] == '(');
    assert(!starts_with(t@, seq!['[']));
    assert(!starts_with(t@, seq!['(']));
    assert(!starts_with(t@, seq!['-', '-', '>']));
    assert(t@ != "BLANK_AUDIO"@);
    assert(!all_digits(t@));
    Some(s)
}

/// Extracts the dictated text from whisper's standard output.
pub fn whisper_output_text(raw: &str) -> (r: String)
    ensures r@ == whisper_text(raw@),
{
    let chars = chars_of(raw);
    let crlf = ['\r', '\n'];
    let cr = ['\r'];
    let lf = ['\n'];
    assert(crlf@ == seq!['\r', '\n']);
    assert(cr@ == seq!['\r']);
    assert(lf@ == seq!['\n']);
    let step1 = replace_chars(chars.as_slice(), &crlf, &lf);
    let step2 = replace_chars(step1.as_slice(), &cr, &lf);
    assert(step2@ == normalize_newlines(raw@));
    let ls = lines_of(step2.as_slice());
    let ghost lsv = lines(step2@);
    let mut kept: Vec<Vec<char>> = Vec::new();
    let mut i: usize = 0;
    while i < ls.len()
        invariant
            i <= ls@.len(),
            ls@.len() == lsv.len(),
            forall|k: int| 0 <= k < ls@.len() ==> (#[trigger] ls@[k])@ == lsv[k],
            kept@.map_values(|w: Vec<char>| w@) == kept_texts(lsv.take(i as int)),
        decreases ls@.len() - i,
    {
        assert(lsv.take(i as int + 1).drop_last() == lsv.take(i as int));
        assert(lsv.take(i as int + 1).last() == lsv[i as int]);
        match line_kept(ls[i].as_slice()) {
            Some(t) => {
                let ghost before = kept@;
                kept.push(t);
                assert(kept@.map_values(|w: Vec<char>| w@) == before.map_values(|w: Vec<char>| w@).push(t@));
            }
            None => {}
        }
        i += 1;
    }
    assert(lsv.take(ls@.len() as int) == lsv);
    let sp = [' '];
    assert(sp@ == seq![' ']);
    let joined = join_chars(&kept, &sp);
    assert(joined@ == join(kept_texts(lsv), seq![' ']));
    let (a, b) = trim_bounds(joined.as_slice());
    let collapsed = collapse_whitespace(&joined.as_slice()[a..b]);
    string_of(collapsed.as_slice())
}

/// The whisper time limit for a recording: ten seconds per second of audio,
/// at least sixty and at most three hundred.
pub open spec fn timeout_for(audio_secs: nat) -> nat {
    let t = audio_secs * 10;
    if t < 60 { 60 } else if t > 300 { 300 } else { t }
}

pub fn adaptive_timeout_secs(audio_secs: u64) -> (r: u64)
    requires audio_secs <= u64::MAX / 10,
    ensures
        r == timeout_for(audio_secs as nat),
        60 <= r <= 300,
{
    let t = audio_secs * 10;
    if t < 60 { 60 } else if t > 300 { 300 } else { t }
}


/// The arguments of the whisper-cli command for one recording. `temperature`
/// is the temperature's text when it is passed (when it is not zero).
pub open spec fn whisper_arg_list(
    model: Seq<char>,
    threads: nat,
    no_speech: bool,
    temperature: Option<Seq<char>>,
    wav: Seq<char>,
    language: Seq<char>,
) -> Seq<Seq<char>> {
    seq![
        "--model"@, model, "--no-timestamps"@, "--threads"@, decimal(threads), "--best-of"@, "1"@,
        "--beam-size"@, "1"@, "--print-colors"@, "false"@, "--print-special"@, "false"@,
        "--word-thold"@, "0.01"@,
    ]
        + (if no_speech { seq!["--no-speech-thold"@, "0.6"@] } else { seq![] })
        + (match temperature { Some(t) => seq!["--temperature"@, t], None => seq![] })
        + seq!["--file"@, wav]
        + (if language == "auto"@ { seq![] } else { seq!["--language"@, language] })
}

pub(crate) fn push_arg(v: &mut Vec<String>, a: &str)
    ensures final(v)@.map_values(|s: String| s@) == old(v)@.map_values(|s: String| s@).push(a@),
{
    let ghost before = v@;
    v.push(owned(a));
    assert(v@.map_values(|s: String| s@) =~= before.map_values(|s: String| s@).push(a@));
}

/// The whisper-cli arguments for `config`, with `threads` threads, the
/// temperature written as `temperature_text`, reading `wav_path`.
pub fn whisper_args(config: &Config, threads: usize, temperature_text: &str, wav_path: &str) -> (r: Vec<String>)
    ensures
        r@.map_values(|s: String| s@) == whisper_arg_list(
            config.model_path@,
            threads as nat,
            config.whisper_no_speech,
            if binary32::eq(config.whisper_temperature_bits, binary32::ZERO) { None } else { Some(temperature_text@) },
            wav_path@,
            config.language@,
        ),
{
    let mut v: Vec<String> = Vec::new();
    push_arg(&mut v, "--model");
    push_arg(&mut v, config.model_path.as_str());
    push_arg(&mut v, "--no-timestamps");
    push_arg(&mut v, "--threads");
    push_arg(&mut v, u64_to_decimal(threads as u64).as_str());
    push_arg(&mut v, "--best-of");
    push_arg(&mut v, "1");
    push_arg(&mut v, "--beam-size");
    push_arg(&mut v, "1");
    push_arg(&mut v, "--print-colors");
    push_arg(&mut v, "false");
    push_arg(&mut v, "--print-special");
    push_arg(&mut v, "false");
    push_arg(&mut v, "--word-thold");
    push_arg(&mut v, "0.01");
    let ghost base = v@.map_values(|s: String| s@);
    if config.whisper_no_speech {
        push_arg(&mut v, "--no-speech-thold");
        push_arg(&mut v, "0.6");
    }
    let ghost with_speech = v@.map_values(|s: String| s@);
    if !binary32::equal(config.whisper_temperature_bits, binary32::ZERO) {
        push_arg(&mut v, "--temperature");
        push_arg(&mut v, temperature_text);
    }
    let ghost with_temp = v@.map_values(|s: String| s@);
    push_arg(&mut v, "--file");
    push_arg(&mut v, wav_path);
    let ghost with_file = v@.map_values(|s: String| s@);
    if !str_eq(config.language.as_str(), "auto") {
        push_arg(&mut v, "--language");
        push_arg(&mut v, config.language.as_str());
    }
    proof {
        let sp: Seq<Seq<char>> = if config.whisper_no_speech { seq!["--no-speech-thold"@, "0.6"@] } else { seq![] };
        let tp: Seq<Seq<char>> = if binary32::eq(config.whisper_temperature_bits, binary32::ZERO) { seq![] } else { seq!["--temperature"@, temperature_text@] };
        let lp: Seq<Seq<char>> = if config.language@ == "auto"@ { seq![] } else { seq!["--language"@, config.language@] };
        assert(with_speech =~= base + sp);
        assert(with_temp =~= base + sp + tp);
        assert(with_file =~= base + sp + tp + seq!["--file"@, wav_path@]);
        assert(v@.map_values(|s: String| s@) =~= base + sp + tp + seq!["--file"@, wav_path@] + lp);
    }
    v
}

/// whisper-cli failed: it exited with an error and printed next to nothing
/// (under ten bytes); with more output its text is used anyway.
pub fn whisper_failed(success: bool, stdout_len: usize) -> (r: bool)
    ensures r == (!success && stdout_len < 10),
{
    !success && stdout_len < 10
}

/// No escape character in the text.
pub open spec fn no_escape(s: Seq<char>) -> bool {
    forall|k: int| 0 <= k < s.len() ==> #[trigger] s[k] != '\u{1b}'
}

/// A text as it is dictated: trimmed, words separated by single plain
/// spaces, no other white space (no line break, tab or carriage return) and
/// no escape character.
pub open spec fn tidy(t: Seq<char>) -> bool {
    &&& forall|k: int| 0 <= k < t.len() ==> (#[trigger] t[k] == ' ' || !is_ws(t[k])) && t[k] != '\u{1b}'
    &&& t.len() > 0 ==> t[0] != ' ' && t[t.len() - 1] != ' '
    &&& forall|k: int| 0 <= k < t.len() - 1 && #[trigger] t[k] == ' ' ==> t[k + 1] != ' '
}

proof fn lemma_strip_ansi_no_escape(s: Seq<char>, i: int, e: bool)
    ensures no_escape(strip_ansi_from(s, i, e)),
    decreases s.len() - i,
{
    if 0 <= i < s.len() {
        lemma_strip_ansi_no_escape(s, i + 1, !is_ascii_alpha(s[i]));
        lemma_strip_ansi_no_escape(s, i + 1, true);
        lemma_strip_ansi_no_escape(s, i + 1, false);
        let rest = strip_ansi_from(s, i + 1, false);
        if !e && s[i] != '\u{1b}' {
            assert forall|k: int| 0 <= k < (seq![s[i]] + rest).len()
                implies #[trigger] (seq![s[i]] + rest)[k] != '\u{1b}' by {
                if k > 0 { assert((seq![s[i]] + rest)[k] == rest[k - 1]); }
            }
        }
    }
}

proof fn lemma_kept_no_escape(ls: Seq<Seq<char>>)
    ensures forall|i: int| 0 <= i < kept_texts(ls).len() ==> no_escape(#[trigger] kept_texts(ls)[i]),
    decreases ls.len(),
{
    if ls.len() > 0 {
        lemma_kept_no_escape(ls.drop_last());
        lemma_strip_ansi_no_escape(trim(ls.last()), 0, false);
        let prev = kept_texts(ls.drop_last());
        let l = ls.last();
        if keeps_line(l) && line_text(l).len() > 0 {
            let now = prev.push(line_text(l));
            assert forall|i: int| 0 <= i < now.len() implies no_escape(#[trigger] now[i]) by {
                if i < prev.len() { assert(now[i] == prev[i]); }
            }
        }
    }
}

proof fn lemma_join_no_escape(ws: Seq<Seq<char>>)
    requires forall|i: int| 0 <= i < ws.len() ==> no_escape(#[trigger] ws[i]),
    ensures no_escape(join(ws, seq![' '])),
    decreases ws.len(),
{
    if ws.len() > 1 {
        lemma_join_no_escape(ws.drop_last());
        assert(no_escape(ws.drop_last().last()) || true);
        assert(no_escape(ws[ws.len() - 1]));
        let a = join(ws.drop_last(), seq![' ']);
        let b = a + seq![' '] + ws.last();
        assert forall|k: int| 0 <= k < b.len() implies #[trigger] b[k] != '\u{1b}' by {
            if k < a.len() { assert(b[k] == a[k]); }
            else if k > a.len() { assert(b[k] == ws.last()[k - a.len() - 1]); }
        }
    } else if ws.len() == 1 {
        assert(no_escape(ws[0]));
    }
}

proof fn lemma_trim_no_escape(s: Seq<char>)
    requires no_escape(s),
    ensures no_escape(trim_start(s)), no_escape(trim_end(s)),
    decreases s.len(),
{
    if s.len() > 0 {
        assert forall|k: int| 0 <= k < s.drop_first().len() implies #[trigger] s.drop_first()[k] != '\u{1b}' by {
            assert(s.drop_first()[k] == s[k + 1]);
        }
        assert forall|k: int| 0 <= k < s.drop_last().len() implies #[trigger] s.drop_last()[k] != '\u{1b}' by {
            assert(s.drop_last()[k] == s[k]);
        }
        lemma_trim_no_escape(s.drop_first());
        lemma_trim_no_escape(s.drop_last());
    }
}

/// A word as `words` gives it: not empty, no white space, no escape.
pub open spec fn clean_word(w: Seq<char>) -> bool {
    &&& w.len() > 0
    &&& forall|k: int| 0 <= k < w.len() ==> !is_ws(#[trigger] w[k]) && w[k] != '\u{1b}'
}

proof fn lemma_words_clean(s: Seq<char>)
    requires no_escape(s),
    ensures forall|i: int| 0 <= i < words(s).len() ==> clean_word(#[trigger] words(s)[i]),
    decreases s.len(),
{
    if s.len() > 0 {
        assert forall|k: int| 0 <= k < s.drop_last().len() implies #[trigger] s.drop_last()[k] != '\u{1b}' by {
            assert(s.drop_last()[k] == s[k]);
        }
        lemma_words_clean(s.drop_last());
        let prev = words(s.drop_last());
        let c = s.last();
        assert(c == s[s.len() - 1]);
        if !is_ws(c) {
            if s.len() >= 2 && !is_ws(s[s.len() - 2]) && prev.len() > 0 {
                let w = prev.last().push(c);
                assert(clean_word(prev[prev.len() - 1]));
                assert forall|k: int| 0 <= k < w.len() implies !is_ws(#[trigger] w[k]) && w[k] != '\u{1b}' by {
                    if k < w.len() - 1 { assert(w[k] == prev[prev.len() - 1][k]); }
                }
                assert(clean_word(w));
            } else {
                assert(clean_word(seq![c]));
            }
        }
    }
}

proof fn lemma_join_tidy(ws: Seq<Seq<char>>)
    requires forall|i: int| 0 <= i < ws.len() ==> clean_word(#[trigger] ws[i]),
    ensures
        tidy(join(ws, seq![' '])),
        ws.len() > 0 ==> join(ws, seq![' ']).len() > 0,
    decreases ws.len(),
{
    if ws.len() == 1 {
        assert(clean_word(ws[0]));
    } else if ws.len() > 1 {
        let pre = ws.drop_last();
        assert forall|i: int| 0 <= i < pre.len() implies clean_word(#[trigger] pre[i]) by {
            assert(pre[i] == ws[i]);
        }
        lemma_join_tidy(pre);
        let w = ws[ws.len() - 1];
        assert(clean_word(w));
        let a = join(pre, seq![' ']);
        let b = a + seq![' '] + w;
        assert(b == join(ws, seq![' ']));
        assert(a.len() > 0);
        assert forall|k: int| 0 <= k < b.len() implies (#[trigger] b[k] == ' ' || !is_ws(b[k])) && b[k] != '\u{1b}' by {
            if k < a.len() { assert(b[k] == a[k]); }
            else if k > a.len() { assert(b[k] == w[k - a.len() - 1]); }
        }
        assert(b[0] == a[0]);
        assert(b[b.len() - 1] == w[w.len() - 1]);
        assert(w[w.len() - 1] != ' ' && !is_ws(w[w.len() - 1]));
        assert forall|k: int| 0 <= k < b.len() - 1 && #[trigger] b[k] == ' ' implies b[k + 1] != ' ' by {
            if k < a.len() - 1 {
                assert(b[k] == a[k]);
                assert(b[k + 1] == a[k + 1]);
            } else if k == a.len() - 1 {
                assert(b[k] == a[a.len() - 1]);
            } else if k == a.len() {
                assert(b[k + 1] == w[0]);
                assert(!is_ws(w[0]));
            } else {
                assert(b[k] == w[k - a.len() - 1]);
                assert(!is_ws(w[k - a.len() - 1]));
            }
        }
    }
}

/// What whisper's output gives is tidy: trimmed, words separated by single
/// plain spaces, with no line break, tab, carriage return, other white
/// space or escape character.
pub proof fn lemma_whisper_text_tidy(raw: Seq<char>)
    ensures tidy(whisper_text(raw)),
{
    let ls = lines(normalize_newlines(raw));
    lemma_kept_no_escape(ls);
    let j = join(kept_texts(ls), seq![' ']);
    lemma_join_no_escape(kept_texts(ls));
    lemma_trim_no_escape(j);
    lemma_trim_no_escape(trim_start(j));
    lemma_words_clean(trim(j));
    lemma_join_tidy(words(trim(j)));
}

/// Each word of what whisper's output gives comes from a kept line, in
/// order: the text is exactly the words of the kept lines' texts (lines that,
/// trimmed, are not empty, not a tag, not a timestamp arrow, not
/// `BLANK_AUDIO` and not a sequence number), joined by single spaces.
pub proof fn lemma_whisper_words_from_kept_lines(raw: Seq<char>)
    ensures
        whisper_text(raw) == join(words_of_all(kept_texts(lines(normalize_newlines(raw)))), seq![' ']),
{
    let ts = kept_texts(lines(normalize_newlines(raw)));
    crate::text::lemma_words_trim(join(ts, seq![' ']));
    crate::text::lemma_words_join(ts);
}

/// A trimmed line that is not empty, not a tag (`[...]`, `(...)`), not a
/// timestamp arrow and not `BLANK_AUDIO`.
pub open spec fn tag_free(t: Seq<char>) -> bool {
    &&& t.len() > 0
    &&& t[0] != '['
    &&& t[0] != '('
    &&& !(t.len() >= 3 && t[0] == '-' && t[1] == '-' && t[2] == '>')
    &&& t != "BLANK_AUDIO"@
}

/// A line is dropped as a sequence number only when it is all ASCII digits:
/// a tag-free line with any other character (such as "3 pommes") is kept.
pub proof fn lemma_lines_with_a_non_digit_are_kept(line: Seq<char>, k: int)
    requires
        tag_free(trim(line)),
        0 <= k < trim(line).len(),
        !('0' <= trim(line)[k] && trim(line)[k] <= '9'),
    ensures
        keeps_line(line),
{
    let t = trim(line);
    assert(!is_ascii_digit(t[k]));
    if starts_with(t, seq!['[']) {
        assert(t.take(1)[0] == t[0]);
    }
    if starts_with(t, seq!['(']) {
        assert(t.take(1)[0] == t[0]);
    }
    if starts_with(t, seq!['-', '-', '>']) {
        assert(t.take(3)[0] == t[0] && t.take(3)[1] == t[1] && t.take(3)[2] == t[2]);
    }
}

proof fn lemma_split_without_sep(s: Seq<char>, sep: char)
    requires forall|k: int| 0 <= k < s.len() ==> s[k] != sep,
    ensures crate::text::split(s, sep) == seq![s],
    decreases s.len(),
{
    if s.len() > 0 {
        lemma_split_without_sep(s.drop_last(), sep);
        assert(s.drop_last().push(s.last()) == s);
        assert(s.last() == s[s.len() - 1]);
    }
}

proof fn lemma_strip_ansi_plain(s: Seq<char>, i: int)
    requires
        0 <= i <= s.len(),
        forall|k: int| 0 <= k < s.len() ==> s[k] != '\u{1b}',
    ensures strip_ansi_from(s, i, false) == s.skip(i),
    decreases s.len() - i,
{
    if i < s.len() {
        lemma_strip_ansi_plain(s, i + 1);
        assert(seq![s[i]] + s.skip(i + 1) == s.skip(i));
    }
}

/// A single line of plain text (no line break, carriage return or escape)
/// that is kept gives its own words, single-spaced: whisper's output
/// "3 pommes" gives "3 pommes".
pub proof fn lemma_single_kept_line(line: Seq<char>)
    requires
        forall|k: int| 0 <= k < line.len() ==> line[k] != '\n' && line[k] != '\r' && line[k] != '\u{1b}',
        keeps_line(line),
    ensures
        whisper_text(line) == collapse_ws(line),
{
    let t = trim(line);
    assert(!crate::text::contains(line, seq!['\r', '\n'])) by {
        if crate::text::contains(line, seq!['\r', '\n']) {
            let k = choose|k: int| crate::text::matches_at(line, seq!['\r', '\n'], k);
            assert(line.subrange(k, k + 2)[0] == line[k]);
        }
    }
    crate::text::lemma_replace_from_absent(line, line, seq!['\r', '\n'], seq!['\n'], 0);
    assert(line.skip(0) == line);
    assert(!crate::text::contains(line, seq!['\r'])) by {
        if crate::text::contains(line, seq!['\r']) {
            let k = choose|k: int| crate::text::matches_at(line, seq!['\r'], k);
            assert(line.subrange(k, k + 1)[0] == line[k]);
        }
    }
    crate::text::lemma_replace_from_absent(line, line, seq!['\r'], seq!['\n'], 0);
    assert(normalize_newlines(line) == line);
    lemma_split_without_sep(line, '\n');
    assert(line.len() > 0) by {
        if line.len() == 0 {
            assert(trim_start(line) == line);
            assert(trim_end(line) == line);
        }
    }
    assert(line.last() == line[line.len() - 1]);
    assert(lines(line) == seq![line]);
    lemma_trim_no_escape(line);
    lemma_trim_no_escape(trim_start(line));
    lemma_strip_ansi_plain(t, 0);
    assert(t.skip(0) == t);
    assert(line_text(line) == t);
    let ls = seq![line];
    assert(ls.drop_last() == Seq::<Seq<char>>::empty());
    assert(ls.last() == line);
    assert(kept_texts(ls.drop_last()) == Seq::<Seq<char>>::empty());
    assert(line_text(line).len() > 0);
    assert(Seq::<Seq<char>>::empty().push(t) == seq![t]);
    assert(kept_texts(ls) == seq![t]);
    assert(join(seq![t], seq![' ']) == t);
    crate::text::lemma_words_trim(t);
    crate::text::lemma_words_trim(line);
}

/// Whisper's output of one plain, tag-free line with a character other than
/// an ASCII digit (a line starting with a number, such as "3 pommes sur la
/// table", included) is that line's words, single-spaced.
pub proof fn lemma_plain_line_is_dictated(line: Seq<char>, k: int)
    requires
        forall|j: int| 0 <= j < line.len() ==> line[j] != '\n' && line[j] != '\r' && line[j] != '\u{1b}',
        tag_free(trim(line)),
        0 <= k < trim(line).len(),
        !('0' <= trim(line)[k] && trim(line)[k] <= '9'),
    ensures
        whisper_text(line) == collapse_ws(line),
{
    lemma_lines_with_a_non_digit_are_kept(line, k);
    lemma_single_kept_line(line);
}

} // verus!
