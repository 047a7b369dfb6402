//! Character-level text operations shared by the library, each with its
//! specification over `Seq<char>`.
use vstd::prelude::*;
use vstd::string::StringExecFns;

verus! {

broadcast use vstd::seq_lib::group_seq_properties;

// ---------------------------------------------------------------------------
// Decimal numbers
// ---------------------------------------------------------------------------

/// The decimal digits of a natural number, most significant first.
pub open spec fn decimal(n: nat) -> Seq<char>
    decreases n,
{
    if n < 10 {
        seq![digit_char(n)]
    } else {
        decimal(n / 10).push(digit_char(n % 10))
    }
}

pub open spec fn digit_char(d: nat) -> char {
    if d == 0 { '0' } else if d == 1 { '1' } else if d == 2 { '2' } else if d == 3 { '3' }
    else if d == 4 { '4' } else if d == 5 { '5' } else if d == 6 { '6' } else if d == 7 { '7' }
    else if d == 8 { '8' } else { '9' }
}

fn digit(d: u64) -> (c: char)
    requires d < 10,
    ensures c == digit_char(d as nat),
{
    if d == 0 { '0' } else if d == 1 { '1' } else if d == 2 { '2' } else if d == 3 { '3' }
    else if d == 4 { '4' } else if d == 5 { '5' } else if d == 6 { '6' } else if d == 7 { '7' }
    else if d == 8 { '8' } else { '9' }
}

/// Writes `n` in decimal.
pub fn u64_to_decimal(n: u64) -> (r: String)
    ensures r@ == decimal(n as nat),
    decreases n,
{
    if n < 10 {
        let mut s = String::new();
        push_char(&mut s, digit(n));
        s
    } else {
        let mut s = u64_to_decimal(n / 10);
        push_char(&mut s, digit(n % 10));
        s
    }
}

/// Appends the decimal form of `n`.
pub fn push_decimal(s: &mut String, n: u64)
    ensures final(s)@ == old(s)@ + decimal(n as nat),
{
    let d = u64_to_decimal(n);
    s.append(d.as_str());
}

/// Two-digit zero-padded decimal, as `{:02}` prints a number below 100.
pub open spec fn two_digits(n: nat) -> Seq<char> {
    if n < 10 { seq!['0', digit_char(n)] } else { decimal(n) }
}

pub fn push_two_digits(s: &mut String, n: u64)
    requires n < 100,
    ensures final(s)@ == old(s)@ + two_digits(n as nat),
{
    if n < 10 {
        push_char(s, '0');
        push_char(s, digit(n));
    } else {
        push_decimal(s, n);
    }
}

// ---------------------------------------------------------------------------
// Conversions between strings and character vectors
// ---------------------------------------------------------------------------

/// Appends one character to a string (std `String::push`).
#[verifier::external_body]
pub(crate) fn push_char(s: &mut String, c: char)
    ensures final(s)@ == old(s)@.push(c),
{
    s.push(c);
}

/// The characters of a string slice, in order.
pub fn chars_of(s: &str) -> (v: Vec<char>)
    ensures v@ == s@,
{
    broadcast use vstd::string::group_string_axioms;
    let mut v: Vec<char> = Vec::new();
    for c in it: s.chars()
        invariant
            v@ == it.seq().take(it.index()),
            it.seq() == s@,
    {
        v.push(c);
    }
    v
}

/// Appends a slice of characters to a string.
pub fn push_chars(s: &mut String, v: &[char])
    ensures final(s)@ == old(s)@ + v@,
{
    let ghost s0 = s@;
    let mut i: usize = 0;
    while i < v.len()
        invariant
            i <= v@.len(),
            s@ == s0 + v@.take(i as int),
        decreases v@.len() - i,
    {
        push_char(s, v[i]);
        assert(v@.take(i as int + 1) == v@.take(i as int).push(v@[i as int]));
        i += 1;
    }
    assert(v@.take(v@.len() as int) == v@);
}

/// The string made of the given characters.
pub fn string_of(v: &[char]) -> (s: String)
    ensures s@ == v@,
{
    let mut s = String::new();
    push_chars(&mut s, v);
    s
}

/// An owned copy of a string slice.
pub fn owned(s: &str) -> (r: String)
    ensures r@ == s@,
{
    String::from_str(s)
}

/// `a` followed by `b`.
pub fn concat2(a: &str, b: &str) -> (r: String)
    ensures r@ == a@ + b@,
{
    let mut r = String::from_str(a);
    r.append(b);
    r
}

// ---------------------------------------------------------------------------
// White space
// ---------------------------------------------------------------------------

/// The Unicode `White_Space` property, as `char::is_whitespace` tests it.
pub open spec fn is_ws(c: char) -> bool {
    ||| ('\u{9}' <= c && c <= '\u{d}')
    ||| c == ' '
    ||| c == '\u{85}'
    ||| c == '\u{a0}'
    ||| c == '\u{1680}'
    ||| ('\u{2000}' <= c && c <= '\u{200a}')
    ||| c == '\u{2028}'
    ||| c == '\u{2029}'
    ||| c == '\u{202f}'
    ||| c == '\u{205f}'
    ||| c == '\u{3000}'
}

pub fn is_whitespace(c: char) -> (b: bool)
    ensures b == is_ws(c),
{
    ('\u{9}' <= c && c <= '\u{d}') || c == ' ' || c == '\u{85}' || c == '\u{a0}'
        || c == '\u{1680}' || ('\u{2000}' <= c && c <= '\u{200a}') || c == '\u{2028}'
        || c == '\u{2029}' || c == '\u{202f}' || c == '\u{205f}' || c == '\u{3000}'
}

/// The text without its leading white space.
pub open spec fn trim_start(s: Seq<char>) -> Seq<char>
    decreases s.len(),
{
    if s.len() > 0 && is_ws(s[0]) { trim_start(s.drop_first()) } else { s }
}

/// The text without its trailing white space.
pub open spec fn trim_end(s: Seq<char>) -> Seq<char>
    decreases s.len(),
{
    if s.len() > 0 && is_ws(s.last()) { trim_end(s.drop_last()) } else { s }
}

/// The text without white space at either end (`str::trim`).
pub open spec fn trim(s: Seq<char>) -> Seq<char> {
    trim_end(trim_start(s))
}

proof fn lemma_trim_start_skip(s: Seq<char>, i: int)
    requires
        0 <= i <= s.len(),
        forall|k: int| 0 <= k < i ==> is_ws(#[trigger] s[k]),
    ensures
        trim_start(s) == trim_start(s.skip(i)),
    decreases i,
{
    if i > 0 {
        assert(s.drop_first().skip(i - 1) == s.skip(i));
        lemma_trim_start_skip(s.drop_first(), i - 1);
    }
}

proof fn lemma_trim_end_take(s: Seq<char>, j: int)
    requires
        0 <= j <= s.len(),
        forall|k: int| j <= k < s.len() ==> is_ws(#[trigger] s[k]),
    ensures
        trim_end(s) == trim_end(s.take(j)),
    decreases s.len() - j,
{
    if j < s.len() {
        assert(s.drop_last().take(j) == s.take(j));
        lemma_trim_end_take(s.drop_last(), j);
    } else {
        assert(s.take(j) == s);
    }
}

/// The bounds of the trimmed text inside `v`.
pub fn trim_bounds(v: &[char]) -> (r: (usize, usize))
    ensures
        r.0 <= r.1 <= v@.len(),
        v@.subrange(r.0 as int, r.1 as int) == trim(v@),
{
    let mut i: usize = 0;
    while i < v.len() && is_whitespace(v[i])
        invariant
            i <= v@.len(),
            forall|k: int| 0 <= k < i ==> is_ws(#[trigger] v@[k]),
        decreases v@.len() - i,
    {
        i += 1;
    }
    proof { lemma_trim_start_skip(v@, i as int); }
    let ghost t = v@.skip(i as int);
    assert(trim_start(t) == t);
    let mut j: usize = v.len();
    while j > i && is_whitespace(v[j - 1])
        invariant
            i <= j <= v@.len(),
            forall|k: int| j <= k < v@.len() ==> is_ws(#[trigger] v@[k]),
        decreases j,
    {
        j -= 1;
    }
    proof {
        let w = j - i;
        assert forall|k: int| w <= k < t.len() implies is_ws(#[trigger] t[k]) by {
            assert(t[k] == v@[k + i]);
        }
        lemma_trim_end_take(t, w as int);
        let u = t.take(w as int);
        assert(u == v@.subrange(i as int, j as int));
        if u.len() > 0 {
            assert(u.last() == v@[j - 1]);
        }
        assert(trim_end(u) == u);
    }
    (i, j)
}

/// `str::trim` as an owned string.
pub fn trim_string(s: &str) -> (r: String)
    ensures r@ == trim(s@),
{
    let v = chars_of(s);
    let (i, j) = trim_bounds(v.as_slice());
    string_of(&v.as_slice()[i..j])
}

// ---------------------------------------------------------------------------
// Prefixes, suffixes and substrings
// ---------------------------------------------------------------------------

pub open spec fn starts_with(s: Seq<char>, p: Seq<char>) -> bool {
    p.len() <= s.len() && s.take(p.len() as int) == p
}

pub open spec fn ends_with(s: Seq<char>, p: Seq<char>) -> bool {
    p.len() <= s.len() && s.skip(s.len() - p.len()) == p
}

/// `p` occurs in `s` starting at index `i`.
pub open spec fn matches_at(s: Seq<char>, p: Seq<char>, i: int) -> bool {
    0 <= i && i + p.len() <= s.len() && s.subrange(i, i + p.len()) == p
}

/// `p` occurs somewhere in `s` (`str::contains`).
pub open spec fn contains(s: Seq<char>, p: Seq<char>) -> bool {
    exists|i: int| matches_at(s, p, i)
}

pub fn match_at(s: &[char], p: &[char], i: usize) -> (b: bool)
    ensures b == matches_at(s@, p@, i as int),
{
    if i > s.len() || p.len() > s.len() - i {
        return false;
    }
    let n = s.len();
    let mut k: usize = 0;
    while k < p.len()
        invariant
            n == s@.len(),
            i + p@.len() <= s@.len(),
            k <= p@.len(),
            forall|m: int| 0 <= m < k ==> s@[i + m] == p@[m],
        decreases p@.len() - k,
    {
        assert(i + k < s@.len());
        if s[i + k] != p[k] {
            assert(s@.subrange(i as int, i + p@.len())[k as int] != p@[k as int]);
            return false;
        }
        k += 1;
    }
    assert(s@.subrange(i as int, i + p@.len()) == p@);
    true
}

pub fn starts_with_chars(s: &[char], p: &[char]) -> (b: bool)
    ensures b == starts_with(s@, p@),
{
    let b = match_at(s, p, 0);
    proof {
        if b { assert(s@.take(p@.len() as int) == s@.subrange(0, p@.len() as int)); }
        if starts_with(s@, p@) { assert(s@.subrange(0, p@.len() as int) == s@.take(p@.len() as int)); }
    }
    b
}

pub fn ends_with_chars(s: &[char], p: &[char]) -> (b: bool)
    ensures b == ends_with(s@, p@),
{
    if p.len() > s.len() {
        return false;
    }
    let b = match_at(s, p, s.len() - p.len());
    proof {
        let i = s@.len() - p@.len();
        assert(s@.skip(i) == s@.subrange(i, i + p@.len()));
    }
    b
}

pub fn contains_chars(s: &[char], p: &[char]) -> (b: bool)
    ensures b == contains(s@, p@),
{
    if p.len() > s.len() {
        assert forall|i: int| !matches_at(s@, p@, i) by {}
        return false;
    }
    let last = s.len() - p.len();
    let mut i: usize = 0;
    while i < last
        invariant
            p@.len() <= s@.len(),
            last == s@.len() - p@.len(),
            i <= last,
            forall|m: int| 0 <= m < i ==> !matches_at(s@, p@, m),
        decreases last - i,
    {
        if match_at(s, p, i) {
            return true;
        }
        i += 1;
    }
    if match_at(s, p, last) {
        return true;
    }
    assert forall|m: int| !matches_at(s@, p@, m) by {}
    false
}

pub fn str_eq(a: &str, b: &str) -> (r: bool)
    ensures r == (a@ == b@),
{
    let va = chars_of(a);
    let vb = chars_of(b);
    if va.len() != vb.len() {
        return false;
    }
    let r = match_at(va.as_slice(), vb.as_slice(), 0);
    proof {
        assert(va@.subrange(0, vb@.len() as int) == va@);
    }
    r
}

// ---------------------------------------------------------------------------
// Replacement of every occurrence
// ---------------------------------------------------------------------------

/// Replaces, from left to right and without overlap, every place from `i` on
/// where `pat` occurs in `key` by `rep`, copying `text` elsewhere. `key` is the
/// sequence searched and `text` the one copied; they have the same length.
/// With `key == text` this is `str::replace`.
pub open spec fn replace_from(text: Seq<char>, key: Seq<char>, pat: Seq<char>, rep: Seq<char>, i: int) -> Seq<char>
    recommends pat.len() > 0,
    decreases text.len() - i,
{
    if i < 0 || i >= text.len() || pat.len() == 0 {
        if 0 <= i <= text.len() { text.skip(i) } else { seq![] }
    } else if matches_at(key, pat, i) && i + pat.len() <= text.len() {
        rep + replace_from(text, key, pat, rep, i + pat.len())
    } else {
        seq![text[i]] + replace_from(text, key, pat, rep, i + 1)
    }
}

pub open spec fn replace_all(s: Seq<char>, pat: Seq<char>, rep: Seq<char>) -> Seq<char> {
    replace_from(s, s, pat, rep, 0)
}

/// Where `pat` never occurs in `key`, replacing changes nothing.
pub proof fn lemma_replace_from_absent(text: Seq<char>, key: Seq<char>, pat: Seq<char>, rep: Seq<char>, i: int)
    requires
        0 <= i <= text.len(),
        !contains(key, pat),
    ensures
        replace_from(text, key, pat, rep, i) == text.skip(i),
    decreases text.len() - i,
{
    if i < text.len() && pat.len() > 0 {
        assert(!matches_at(key, pat, i));
        lemma_replace_from_absent(text, key, pat, rep, i + 1);
        assert(seq![text[i]] + text.skip(i + 1) == text.skip(i));
    }
}

/// Computes `replace_from(text, key, pat, rep, 0)`.
pub fn replace_keyed(text: &[char], key: &[char], pat: &[char], rep: &[char]) -> (r: Vec<char>)
    requires
        text@.len() == key@.len(),
        pat@.len() > 0,
    ensures
        r@ == replace_from(text@, key@, pat@, rep@, 0),
{
    let mut out: Vec<char> = Vec::new();
    let mut i: usize = 0;
    while i < text.len()
        invariant
            text@.len() == key@.len(),
            pat@.len() > 0,
            i <= text@.len(),
            out@ + replace_from(text@, key@, pat@, rep@, i as int) == replace_from(text@, key@, pat@, rep@, 0),
        decreases text@.len() - i,
    {
        if match_at(key, pat, i) {
            let mut k: usize = 0;
            let ghost out0 = out@;
            while k < rep.len()
                invariant
                    k <= rep@.len(),
                    out@ == out0 + rep@.take(k as int),
                decreases rep@.len() - k,
            {
                out.push(rep[k]);
                assert(rep@.take(k as int + 1) == rep@.take(k as int).push(rep@[k as int]));
                k += 1;
            }
            assert(rep@.take(rep@.len() as int) == rep@);
            assert(out0 + (rep@ + replace_from(text@, key@, pat@, rep@, i + pat@.len()))
                == out@ + replace_from(text@, key@, pat@, rep@, i + pat@.len()));
            i = i + pat.len();
        } else {
            let ghost out0 = out@;
            out.push(text[i]);
            assert(out0 + (seq![text@[i as int]] + replace_from(text@, key@, pat@, rep@, i + 1))
                == out@ + replace_from(text@, key@, pat@, rep@, i + 1));
            i = i + 1;
        }
    }
    assert(text@.skip(i as int) == Seq::<char>::empty());
    assert(out@ + Seq::<char>::empty() == out@);
    out
}

/// `str::replace`: every non-overlapping occurrence of a non-empty `pat`,
/// from the left, replaced by `rep`.
pub fn replace_chars(s: &[char], pat: &[char], rep: &[char]) -> (r: Vec<char>)
    requires pat@.len() > 0,
    ensures r@ == replace_all(s@, pat@, rep@),
{
    replace_keyed(s, s, pat, rep)
}

// ---------------------------------------------------------------------------
// Words and lines
// ---------------------------------------------------------------------------

/// The maximal runs of non-white-space characters (`str::split_whitespace`).
pub open spec fn words(s: Seq<char>) -> Seq<Seq<char>>
    decreases s.len(),
{
    if s.len() == 0 {
        seq![]
    } else {
        let prev = words(s.drop_last());
        let c = s.last();
        if is_ws(c) {
            prev
        } else if s.len() >= 2 && !is_ws(s[s.len() - 2]) && prev.len() > 0 {
            prev.update(prev.len() - 1, prev.last().push(c))
        } else {
            prev.push(seq![c])
        }
    }
}

/// The pieces joined with `sep` between consecutive ones (`[T]::join`).
pub open spec fn join(ws: Seq<Seq<char>>, sep: Seq<char>) -> Seq<char>
    decreases ws.len(),
{
    if ws.len() == 0 {
        seq![]
    } else if ws.len() == 1 {
        ws[0]
    } else {
        join(ws.drop_last(), sep) + sep + ws.last()
    }
}

/// The words of `s` separated by single spaces.
pub open spec fn collapse_ws(s: Seq<char>) -> Seq<char> {
    join(words(s), seq![' '])
}

/// The words of each piece, in order.
pub open spec fn words_of_all(ts: Seq<Seq<char>>) -> Seq<Seq<char>>
    decreases ts.len(),
{
    if ts.len() == 0 { seq![] } else { words_of_all(ts.drop_last()) + words(ts.last()) }
}

proof fn lemma_words_ws_end(s: Seq<char>, c: char)
    requires is_ws(c),
    ensures words(s.push(c)) == words(s),
{
    assert(s.push(c).drop_last() == s);
}

proof fn lemma_words_nonempty(s: Seq<char>)
    requires s.len() > 0, !is_ws(s.last()),
    ensures words(s).len() > 0,
{
}

/// White space splits words: the words of `a`, a white-space character,
/// then `b`, are the words of `a` followed by those of `b`.
pub proof fn lemma_words_split(a: Seq<char>, c: char, b: Seq<char>)
    requires is_ws(c),
    ensures words(a.push(c) + b) == words(a) + words(b),
    decreases b.len(),
{
    if b.len() == 0 {
        assert(a.push(c) + b == a.push(c));
        lemma_words_ws_end(a, c);
        assert(words(a) + words(b) == words(a));
    } else {
        let b1 = b.drop_last();
        let x = b.last();
        lemma_words_split(a, c, b1);
        let s = a.push(c) + b1;
        assert(a.push(c) + b == s.push(x));
        assert(s.push(x).drop_last() == s);
        assert(s.push(x).last() == x);
        assert(b.drop_last() == b1);
        let p = words(a);
        let q = words(b1);
        if b1.len() > 0 {
            assert(s.push(x)[s.push(x).len() - 2] == b1.last());
            assert(b[b.len() - 2] == b1.last());
            if !is_ws(b1.last()) {
                lemma_words_nonempty(b1);
            }
        } else {
            assert(s.push(x)[s.push(x).len() - 2] == c);
        }
        if !is_ws(x) && b1.len() > 0 && !is_ws(b1.last()) {
            assert((p + q).update((p + q).len() - 1, (p + q).last().push(x))
                == p + q.update(q.len() - 1, q.last().push(x)));
        } else if !is_ws(x) {
            assert((p + q).push(seq![x]) == p + q.push(seq![x]));
        }
    }
}

proof fn lemma_words_trim_end(s: Seq<char>)
    ensures words(trim_end(s)) == words(s),
    decreases s.len(),
{
    if s.len() > 0 && is_ws(s.last()) {
        lemma_words_trim_end(s.drop_last());
        lemma_words_ws_end(s.drop_last(), s.last());
        assert(s.drop_last().push(s.last()) == s);
    }
}

proof fn lemma_words_trim_start(s: Seq<char>)
    ensures words(trim_start(s)) == words(s),
    decreases s.len(),
{
    if s.len() > 0 && is_ws(s[0]) {
        lemma_words_trim_start(s.drop_first());
        lemma_words_split(seq![], s[0], s.drop_first());
        assert(Seq::<char>::empty().push(s[0]) + s.drop_first() == s);
        assert(words(Seq::<char>::empty()) + words(s.drop_first()) == words(s.drop_first()));
    }
}

/// Trimming keeps the words.
pub proof fn lemma_words_trim(s: Seq<char>)
    ensures words(trim(s)) == words(s),
{
    lemma_words_trim_start(s);
    lemma_words_trim_end(trim_start(s));
}

/// The words of pieces joined by spaces are the words of the pieces, in order.
pub proof fn lemma_words_join(ts: Seq<Seq<char>>)
    ensures words(join(ts, seq![' '])) == words_of_all(ts),
    decreases ts.len(),
{
    if ts.len() == 1 {
        assert(ts.drop_last().len() == 0);
        assert(words_of_all(ts.drop_last()) + words(ts.last()) == words(ts[0]));
    } else if ts.len() > 1 {
        lemma_words_join(ts.drop_last());
        let a = join(ts.drop_last(), seq![' ']);
        assert(a + seq![' '] + ts.last() == a.push(' ') + ts.last());
        lemma_words_split(a, ' ', ts.last());
    }
}

pub proof fn lemma_join_push(ws: Seq<Seq<char>>, sep: Seq<char>, w: Seq<char>)
    ensures
        join(ws.push(w), sep) == if ws.len() == 0 { w } else { join(ws, sep) + sep + w },
{
    assert(ws.push(w).drop_last() == ws);
    if ws.len() == 0 {
        assert(ws.push(w)[0] == w);
    }
}

pub proof fn lemma_join_extend_last(ws: Seq<Seq<char>>, sep: Seq<char>, c: char)
    requires ws.len() > 0,
    ensures join(ws.update(ws.len() - 1, ws.last().push(c)), sep) == join(ws, sep).push(c),
{
    let ws2 = ws.update(ws.len() - 1, ws.last().push(c));
    if ws.len() == 1 {
        assert(ws2[0] == ws[0].push(c));
    } else {
        assert(ws2.drop_last() == ws.drop_last());
        assert(ws2.last() == ws.last().push(c));
        assert(join(ws, sep) == join(ws.drop_last(), sep) + sep + ws.last());
        assert(join(ws2, sep) == join(ws.drop_last(), sep) + sep + ws.last().push(c));
    }
}

/// `s.split_whitespace().collect::<Vec<_>>().join(" ")`.
pub fn collapse_whitespace(s: &[char]) -> (r: Vec<char>)
    ensures r@ == collapse_ws(s@),
{
    let mut out: Vec<char> = Vec::new();
    let mut have_word = false;
    let mut in_word = false;
    let mut i: usize = 0;
    while i < s.len()
        invariant
            i <= s@.len(),
            out@ == collapse_ws(s@.take(i as int)),
            have_word == (words(s@.take(i as int)).len() > 0),
            in_word == (i > 0 && !is_ws(s@[i - 1])),
        decreases s@.len() - i,
    {
        let c = s[i];
        let ghost t = s@.take(i as int + 1);
        let ghost prev = words(s@.take(i as int));
        assert(t.drop_last() == s@.take(i as int));
        assert(t.last() == c);
        if is_whitespace(c) {
            in_word = false;
        } else if in_word && have_word {
            assert(t[t.len() - 2] == s@[i - 1]);
            proof { lemma_join_extend_last(prev, seq![' '], c); }
            out.push(c);
        } else {
            proof { lemma_join_push(prev, seq![' '], seq![c]); }
            if have_word {
                out.push(' ');
            }
            out.push(c);
            assert(out@ == collapse_ws(t));
            have_word = true;
            in_word = true;
        }
        i += 1;
    }
    assert(s@.take(s@.len() as int) == s@);
    out
}

/// The words of `s` (`str::split_whitespace`).
pub fn words_of(s: &[char]) -> (r: Vec<Vec<char>>)
    ensures
        r@.len() == words(s@).len(),
        forall|k: int| 0 <= k < r@.len() ==> (#[trigger] r@[k])@ == words(s@)[k],
{
    let mut ws: Vec<Vec<char>> = Vec::new();
    let mut in_word = false;
    let mut i: usize = 0;
    while i < s.len()
        invariant
            i <= s@.len(),
            ws@.len() == words(s@.take(i as int)).len(),
            forall|k: int| 0 <= k < ws@.len() ==> (#[trigger] ws@[k])@ == words(s@.take(i as int))[k],
            in_word == (i > 0 && !is_ws(s@[i - 1])),
            in_word ==> ws@.len() > 0,
        decreases s@.len() - i,
    {
        let c = s[i];
        let ghost t = s@.take(i as int + 1);
        let ghost prev = words(s@.take(i as int));
        assert(t.drop_last() == s@.take(i as int));
        assert(t.last() == c);
        if is_whitespace(c) {
            in_word = false;
        } else if in_word {
            assert(t[t.len() - 2] == s@[i - 1]);
            let ghost before = ws@;
            let mut last = ws.pop().unwrap();
            last.push(c);
            ws.push(last);
            assert(words(t) == prev.update(prev.len() - 1, prev.last().push(c)));
            assert forall|k: int| 0 <= k < ws@.len() implies (#[trigger] ws@[k])@ == words(t)[k] by {
                if k < ws@.len() - 1 {
                    assert(ws@[k] == before[k]);
                }
            }
        } else {
            ws.push(vec![c]);
            in_word = true;
            assert(ws@[ws@.len() - 1]@ == seq![c]);
        }
        i += 1;
    }
    assert(s@.take(s@.len() as int) == s@);
    ws
}

/// The pieces between occurrences of `sep` (`str::split`); always at least one.
pub open spec fn split(s: Seq<char>, sep: char) -> Seq<Seq<char>>
    decreases s.len(),
{
    if s.len() == 0 {
        seq![seq![]]
    } else {
        let prev = split(s.drop_last(), sep);
        if s.last() == sep {
            prev.push(seq![])
        } else {
            prev.update(prev.len() - 1, prev.last().push(s.last()))
        }
    }
}

pub proof fn lemma_split_nonempty(s: Seq<char>, sep: char)
    ensures split(s, sep).len() >= 1,
    decreases s.len(),
{
    if s.len() > 0 {
        lemma_split_nonempty(s.drop_last(), sep);
    }
}

/// The lines of a text without carriage returns (`str::lines`): the pieces
/// between newlines, without the empty piece after a final newline.
pub open spec fn lines(s: Seq<char>) -> Seq<Seq<char>> {
    if s.len() == 0 {
        seq![]
    } else if s.last() == '\n' {
        split(s, '\n').drop_last()
    } else {
        split(s, '\n')
    }
}

/// The pieces of `s` between the separator `sep`.
pub fn split_chars(s: &[char], sep: char) -> (r: Vec<Vec<char>>)
    ensures
        r@.len() == split(s@, sep).len(),
        forall|k: int| 0 <= k < r@.len() ==> (#[trigger] r@[k])@ == split(s@, sep)[k],
{
    let mut parts: Vec<Vec<char>> = Vec::new();
    let mut cur: Vec<char> = Vec::new();
    let mut i: usize = 0;
    while i < s.len()
        invariant
            i <= s@.len(),
            parts@.len() + 1 == split(s@.take(i as int), sep).len(),
            forall|k: int| 0 <= k < parts@.len() ==> (#[trigger] parts@[k])@ == split(s@.take(i as int), sep)[k],
            cur@ == split(s@.take(i as int), sep).last(),
        decreases s@.len() - i,
    {
        let ghost t = s@.take(i as int + 1);
        assert(t.drop_last() == s@.take(i as int));
        assert(t.last() == s@[i as int]);
        proof { lemma_split_nonempty(s@.take(i as int), sep); }
        if s[i] == sep {
            parts.push(cur);
            cur = Vec::new();
        } else {
            cur.push(s[i]);
        }
        i += 1;
    }
    assert(s@.take(s@.len() as int) == s@);
    parts.push(cur);
    parts
}

/// The lines of `s` (`str::lines`, for a text without carriage returns).
pub fn lines_of(s: &[char]) -> (r: Vec<Vec<char>>)
    ensures
        r@.len() == lines(s@).len(),
        forall|k: int| 0 <= k < r@.len() ==> (#[trigger] r@[k])@ == lines(s@)[k],
{
    if s.len() == 0 {
        return Vec::new();
    }
    let mut parts = split_chars(s, '\n');
    if s[s.len() - 1] == '\n' {
        proof { lemma_split_nonempty(s@, '\n'); }
        parts.pop();
    }
    parts
}

/// Joins the pieces with `sep` between consecutive ones.
pub fn join_chars(ws: &Vec<Vec<char>>, sep: &[char]) -> (r: Vec<char>)
    ensures
        r@ == join(ws@.map_values(|w: Vec<char>| w@), sep@),
{
    let ghost all = ws@.map_values(|w: Vec<char>| w@);
    let mut out: Vec<char> = Vec::new();
    let mut i: usize = 0;
    while i < ws.len()
        invariant
            i <= ws@.len(),
            all == ws@.map_values(|w: Vec<char>| w@),
            out@ == join(all.take(i as int), sep@),
        decreases ws@.len() - i,
    {
        let ghost before = all.take(i as int);
        assert(all.take(i as int + 1) == before.push(ws@[i as int]@));
        proof { lemma_join_push(before, sep@, ws@[i as int]@); }
        if i > 0 {
            out.extend_from_slice(sep);
        }
        out.extend_from_slice(ws[i].as_slice());
        i += 1;
    }
    assert(all.take(ws@.len() as int) == all);
    out
}

// ---------------------------------------------------------------------------
// Case mapping
// ---------------------------------------------------------------------------

/// What `str::to_lowercase` returns for a text.
pub uninterp spec fn lowercase(s: Seq<char>) -> Seq<char>;

/// The ASCII small letter of a character: `A`..`Z` become `a`..`z`, every
/// other character stays.
pub open spec fn ascii_lower(c: char) -> char {
    if 'A' <= c && c <= 'Z' { ((c as u32) + 32) as char } else { c }
}

/// `str::to_lowercase`. Its result is a function of the text alone (the
/// Unicode lowercase mapping, with the final-sigma rule); the contract names
/// it without spelling out the Unicode tables, and states only what the
/// mapping does to an all-ASCII text (the empty one included): each capital
/// becomes its small letter.
#[verifier::external_body]
pub(crate) fn to_lowercase(s: &str) -> (r: String)
    ensures
        r@ == lowercase(s@),
        vstd::utf8::is_ascii_chars(s@) ==> r@ == s@.map_values(|c: char| ascii_lower(c)),
{
    s.to_lowercase()
}

/// The ASCII capital of a character: `a`..`z` become `A`..`Z`, every other
/// character stays.
pub open spec fn ascii_upper(c: char) -> char {
    if 'a' <= c && c <= 'z' { ((c as u32) - 32) as char } else { c }
}

/// What `str::to_uppercase` returns for a text.
pub uninterp spec fn uppercase(s: Seq<char>) -> Seq<char>;

/// `str::to_uppercase`. Its result is a function of the text alone (the
/// Unicode uppercase mapping); the contract names it and states only what the
/// mapping does to an all-ASCII text: each letter becomes its capital.
#[verifier::external_body]
pub(crate) fn to_uppercase(s: &str) -> (r: String)
    ensures
        r@ == uppercase(s@),
        vstd::utf8::is_ascii_chars(s@) ==> r@ == s@.map_values(|c: char| ascii_upper(c)),
{
    s.to_uppercase()
}

/// What `char::to_uppercase` yields for a character.
pub uninterp spec fn char_uppercase(c: char) -> Seq<char>;

/// `char::to_uppercase`, collected into a string. Its result is a function of
/// the character alone (the Unicode uppercase mapping); the contract names it
/// and states only that an ASCII lowercase letter maps to its capital.
#[verifier::external_body]
pub(crate) fn char_to_uppercase(c: char) -> (r: String)
    ensures
        r@ == char_uppercase(c),
        ('a' <= c && c <= 'z') ==> r@ == seq![((c as u32) - 32) as char],
{
    c.to_uppercase().collect::<String>()
}


/// `str::contains` on string slices.
pub fn contains_str(s: &str, p: &str) -> (b: bool)
    ensures b == contains(s@, p@),
{
    let a = chars_of(s);
    let q = chars_of(p);
    contains_chars(a.as_slice(), q.as_slice())
}

/// `str::starts_with` on string slices.
pub fn starts_with_str(s: &str, p: &str) -> (b: bool)
    ensures b == starts_with(s@, p@),
{
    let a = chars_of(s);
    let q = chars_of(p);
    starts_with_chars(a.as_slice(), q.as_slice())
}

/// `str::ends_with` on string slices.
pub fn ends_with_str(s: &str, p: &str) -> (b: bool)
    ensures b == ends_with(s@, p@),
{
    let a = chars_of(s);
    let q = chars_of(p);
    ends_with_chars(a.as_slice(), q.as_slice())
}

/// Appends a string slice.
pub fn push_str(s: &mut String, t: &str)
    ensures final(s)@ == old(s)@ + t@,
{
    s.append(t);
}

/// "true" or "false", as `bool` prints.
pub open spec fn bool_text(b: bool) -> Seq<char> {
    if b { "true"@ } else { "false"@ }
}

pub fn bool_str(b: bool) -> (r: &'static str)
    ensures r@ == bool_text(b),
{
    if b { "true" } else { "false" }
}

// ---------------------------------------------------------------------------
// Unsigned integers in decimal
// ---------------------------------------------------------------------------

pub open spec fn is_digit(c: char) -> bool {
    '0' <= c && c <= '9'
}

/// The value of a run of decimal digits.
pub open spec fn digits_value(s: Seq<char>) -> nat
    decreases s.len(),
{
    if s.len() == 0 {
        0
    } else {
        digits_value(s.drop_last()) * 10 + ((s.last() as nat) - ('0' as nat)) as nat
    }
}

/// What `str::parse` gives for an unsigned integer type whose largest value
/// is `max`: an optional `+`, then one or more decimal digits, of value at
/// most `max`.
pub open spec fn parse_unsigned(s: Seq<char>, max: nat) -> Option<nat> {
    digit_run(if s.len() > 0 && s[0] == '+' { s.drop_first() } else { s }, max)
}

proof fn lemma_digits_value_grows(s: Seq<char>, i: int)
    requires
        0 <= i <= s.len(),
        forall|k: int| 0 <= k < s.len() ==> is_digit(#[trigger] s[k]),
    ensures
        digits_value(s.take(i)) <= digits_value(s),
    decreases s.len() - i,
{
    if i < s.len() {
        assert(s.take(s.len() - 1) == s.drop_last());
        assert(s.drop_last().take(i) == s.take(i));
        lemma_digits_value_grows(s.drop_last(), i);
    } else {
        assert(s.take(i) == s);
    }
}

/// The value of a run of digits when it is non-empty, all digits, and at most `max`.
pub open spec fn digit_run(d: Seq<char>, max: nat) -> Option<nat> {
    if d.len() > 0 && (forall|k: int| 0 <= k < d.len() ==> is_digit(#[trigger] d[k])) && digits_value(d) <= max {
        Some(digits_value(d))
    } else {
        None
    }
}

fn parse_digit_run(d: &[char], max: u64) -> (r: Option<u64>)
    ensures
        match r {
            Some(v) => digit_run(d@, max as nat) == Some(v as nat),
            None => digit_run(d@, max as nat) is None,
        },
{
    if d.len() == 0 {
        return None;
    }
    let mut v: u64 = 0;
    let mut i: usize = 0;
    while i < d.len()
        invariant
            i <= d@.len(),
            forall|k: int| 0 <= k < i ==> is_digit(#[trigger] d@[k]),
            v as nat == digits_value(d@.take(i as int)),
            v <= max,
        decreases d@.len() - i,
    {
        let c = d[i];
        if !('0' <= c && c <= '9') {
            return None;
        }
        let digit: u64 = (c as u32 - 48) as u64;
        proof {
            let t = d@.take(i as int + 1);
            assert(t.drop_last() == d@.take(i as int));
            assert(t.last() == c);
            assert(digits_value(t) == digits_value(d@.take(i as int)) * 10 + digit);
        }
        let nv: u128 = v as u128 * 10 + digit as u128;
        if nv > max as u128 {
            proof {
                if forall|k: int| 0 <= k < d@.len() ==> is_digit(#[trigger] d@[k]) {
                    lemma_digits_value_grows(d@, i as int + 1);
                }
            }
            return None;
        }
        v = nv as u64;
        i += 1;
    }
    assert(d@.take(d@.len() as int) == d@);
    Some(v)
}

/// Parses an unsigned decimal integer of at most `max` (`str::parse::<uN>`
/// with `max` the type's largest value).
pub fn parse_unsigned_chars(s: &[char], max: u64) -> (r: Option<u64>)
    ensures
        match r {
            Some(v) => parse_unsigned(s@, max as nat) == Some(v as nat),
            None => parse_unsigned(s@, max as nat) is None,
        },
{
    if s.len() > 0 && s[0] == '+' {
        assert(s@.subrange(1, s@.len() as int) == s@.drop_first());
        parse_digit_run(&s[1..s.len()], max)
    } else {
        parse_digit_run(s, max)
    }
}

} // verus!
