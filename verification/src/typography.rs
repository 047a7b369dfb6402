//! Shaping a transcription before it is typed: capital letter, French
//! typography, and the sequence of keyboard actions that types it.
use vstd::prelude::*;
use crate::text::{
    matches_at, replace_from,
    char_to_uppercase, char_uppercase, chars_of, push_chars, replace_all, replace_chars,
    starts_with, starts_with_chars, string_of, trim, trim_bounds,
};

verus! {

broadcast use vstd::seq_lib::group_seq_properties;

/// The first character in capitals (by the Unicode mapping), the rest unchanged.
pub open spec fn capitalized(s: Seq<char>) -> Seq<char> {
    if s.len() == 0 { seq![] } else { char_uppercase(s[0]) + s.drop_first() }
}

pub fn capitalize_first(s: &str) -> (r: String)
    ensures r@ == capitalized(s@),
{
    let v = chars_of(s);
    if v.len() == 0 {
        return String::new();
    }
    let mut r = char_to_uppercase(v[0]);
    push_chars(&mut r, &v.as_slice()[1..v.len()]);
    assert(v@.subrange(1, v@.len() as int) == v@.drop_first());
    r
}

pub open spec fn nbsp() -> char { '\u{a0}' }

/// Straight double quotes become French guillemets, from index `i` on:
/// an opening one is `«` and a no-break space, a closing one a no-break space
/// and `»`. `open` says whether a quotation is open.
pub open spec fn guillemets_from(s: Seq<char>, i: int, open: bool) -> Seq<char>
    decreases s.len() - i,
{
    if i < 0 || i >= s.len() {
        seq![]
    } else if s[i] == '"' {
        (if open { seq![nbsp(), '»'] } else { seq!['«', nbsp()] }) + guillemets_from(s, i + 1, !open)
    } else {
        seq![s[i]] + guillemets_from(s, i + 1, open)
    }
}

pub open spec fn guillemets(s: Seq<char>) -> Seq<char> {
    guillemets_from(s, 0, false)
}

/// Replaces straight double quotes by guillemets, alternately opening and closing.
pub fn replace_quotes_french(s: &[char]) -> (r: Vec<char>)
    ensures r@ == guillemets(s@),
{
    let mut out: Vec<char> = Vec::new();
    let mut open = false;
    let mut i: usize = 0;
    while i < s.len()
        invariant
            i <= s@.len(),
            out@ + guillemets_from(s@, i as int, open) == guillemets(s@),
        decreases s@.len() - i,
    {
        let ghost o = out@;
        if s[i] == '"' {
            if open {
                out.push('\u{a0}');
                out.push('»');
                assert(out@ == o + seq![nbsp(), '»']);
            } else {
                out.push('«');
                out.push('\u{a0}');
                assert(out@ == o + seq!['«', nbsp()]);
            }
            open = !open;
        } else {
            out.push(s[i]);
            assert(o + (seq![s@[i as int]] + guillemets_from(s@, i + 1, open)) == out@ + guillemets_from(s@, i + 1, open));
        }
        i += 1;
    }
    assert(out@ + Seq::<char>::empty() == out@);
    out
}

/// French typography: an ellipsis character for three dots, typographic
/// apostrophes, guillemets, a no-break space instead of the space before
/// `? ! : ;`, and an en dash for a leading `- `.
pub open spec fn french_typography(s: Seq<char>) -> Seq<char> {
    let a = replace_all(s, seq!['.', '.', '.'], seq!['\u{2026}']);
    let b = replace_all(a, seq!['\''], seq!['\u{2019}']);
    let c = guillemets(b);
    let d = replace_all(c, seq![' ', '?'], seq![nbsp(), '?']);
    let e = replace_all(d, seq![' ', '!'], seq![nbsp(), '!']);
    let f = replace_all(e, seq![' ', ':'], seq![nbsp(), ':']);
    let g = replace_all(f, seq![' ', ';'], seq![nbsp(), ';']);
    if starts_with(g, seq!['-', ' ']) { seq!['\u{2013}', ' '] + g.skip(2) } else { g }
}

pub fn apply_french_typography(text: &str) -> (r: String)
    ensures r@ == french_typography(text@),
{
    let s = chars_of(text);
    let dots = ['.', '.', '.'];
    let ellipsis = ['\u{2026}'];
    let apos = ['\''];
    let curly = ['\u{2019}'];
    let q = [' ', '?'];
    let q2 = ['\u{a0}', '?'];
    let x = [' ', '!'];
    let x2 = ['\u{a0}', '!'];
    let co = [' ', ':'];
    let co2 = ['\u{a0}', ':'];
    let sc = [' ', ';'];
    let sc2 = ['\u{a0}', ';'];
    assert(dots@ == seq!['.', '.', '.']);
    assert(ellipsis@ == seq!['\u{2026}']);
    assert(apos@ == seq!['\'']);
    assert(curly@ == seq!['\u{2019}']);
    assert(q@ == seq![' ', '?'] && q2@ == seq![nbsp(), '?']);
    assert(x@ == seq![' ', '!'] && x2@ == seq![nbsp(), '!']);
    assert(co@ == seq![' ', ':'] && co2@ == seq![nbsp(), ':']);
    assert(sc@ == seq![' ', ';'] && sc2@ == seq![nbsp(), ';']);
    let a = replace_chars(s.as_slice(), &dots, &ellipsis);
    let b = replace_chars(a.as_slice(), &apos, &curly);
    let c = replace_quotes_french(b.as_slice());
    let d = replace_chars(c.as_slice(), &q, &q2);
    let e = replace_chars(d.as_slice(), &x, &x2);
    let f = replace_chars(e.as_slice(), &co, &co2);
    let g = replace_chars(f.as_slice(), &sc, &sc2);
    let dash = ['-', ' '];
    assert(dash@ == seq!['-', ' ']);
    if starts_with_chars(g.as_slice(), &dash) {
        let mut out: Vec<char> = Vec::new();
        out.push('\u{2013}');
        out.push(' ');
        out.extend_from_slice(&g.as_slice()[2..g.len()]);
        assert(g@.subrange(2, g@.len() as int) == g@.skip(2));
        assert(out@ == seq!['\u{2013}', ' '] + g@.skip(2));
        string_of(out.as_slice())
    } else {
        string_of(g.as_slice())
    }
}


/// No plain space comes right before `d`.
pub open spec fn no_space_before(t: Seq<char>, d: char) -> bool {
    forall|k: int| 0 <= k < t.len() - 1 ==> !(#[trigger] t[k] == ' ' && t[k + 1] == d)
}

/// Replacing " c" by no-break space and `c`, from index `i` on: the result
/// starts with the no-break space or with `s[i]`, has no plain space before
/// `c`, and keeps having none before any other `d` that had none.
proof fn lemma_space_replaced(s: Seq<char>, c: char, d: char, i: int)
    requires 0 <= i <= s.len(), c != ' ', d != ' ', c != nbsp(), d != nbsp(),
    ensures ({
        let r = replace_from(s, s, seq![' ', c], seq![nbsp(), c], i);
        &&& i < s.len() ==> r.len() > 0 && (r[0] == nbsp() || r[0] == s[i])
        &&& no_space_before(r, c)
        &&& (d != c && no_space_before(s.skip(i), d)) ==> no_space_before(r, d)
    }),
    decreases s.len() - i,
{
    let pat = seq![' ', c];
    let rep = seq![nbsp(), c];
    let r = replace_from(s, s, pat, rep, i);
    if i >= s.len() {
        assert(r.len() == 0);
    } else if matches_at(s, pat, i) && i + pat.len() <= s.len() {
        lemma_space_replaced(s, c, d, i + 2);
        let rest = replace_from(s, s, pat, rep, i + 2);
        assert(r == rep + rest);
        assert forall|k: int| 0 <= k < r.len() - 1 implies !(#[trigger] r[k] == ' ' && r[k + 1] == c) by {
            if k >= 2 { assert(r[k] == rest[k - 2] && r[k + 1] == rest[k - 1]); }
        }
        if d != c && no_space_before(s.skip(i), d) {
            assert(no_space_before(s.skip(i + 2), d)) by {
                assert forall|k: int| 0 <= k < s.skip(i + 2).len() - 1 implies
                    !(#[trigger] s.skip(i + 2)[k] == ' ' && s.skip(i + 2)[k + 1] == d) by {
                    assert(s.skip(i + 2)[k] == s.skip(i)[k + 2] && s.skip(i + 2)[k + 1] == s.skip(i)[k + 3]);
                }
            }
            assert forall|k: int| 0 <= k < r.len() - 1 implies !(#[trigger] r[k] == ' ' && r[k + 1] == d) by {
                if k >= 2 { assert(r[k] == rest[k - 2] && r[k + 1] == rest[k - 1]); }
            }
        }
    } else {
        lemma_space_replaced(s, c, d, i + 1);
        let rest = replace_from(s, s, pat, rep, i + 1);
        assert(r == seq![s[i]] + rest);
        if s[i] == ' ' && i + 1 < s.len() {
            assert(s[i + 1] != c) by {
                if s[i + 1] == c {
                    assert(s.subrange(i, i + 2) =~= pat);
                    assert(matches_at(s, pat, i));
                }
            }
        }
        assert forall|k: int| 0 <= k < r.len() - 1 implies !(#[trigger] r[k] == ' ' && r[k + 1] == c) by {
            if k >= 1 {
                assert(r[k] == rest[k - 1] && r[k + 1] == rest[k]);
            } else {
                assert(r[0] == s[i] && r[1] == rest[0]);
            }
        }
        if d != c && no_space_before(s.skip(i), d) {
            assert(no_space_before(s.skip(i + 1), d)) by {
                assert forall|k: int| 0 <= k < s.skip(i + 1).len() - 1 implies
                    !(#[trigger] s.skip(i + 1)[k] == ' ' && s.skip(i + 1)[k + 1] == d) by {
                    assert(s.skip(i + 1)[k] == s.skip(i)[k + 1] && s.skip(i + 1)[k + 1] == s.skip(i)[k + 2]);
                }
            }
            if s[i] == ' ' && i + 1 < s.len() {
                assert(s.skip(i)[0] == s[i] && s.skip(i)[1] == s[i + 1]);
            }
            assert forall|k: int| 0 <= k < r.len() - 1 implies !(#[trigger] r[k] == ' ' && r[k + 1] == d) by {
                if k >= 1 {
                    assert(r[k] == rest[k - 1] && r[k + 1] == rest[k]);
                } else {
                    assert(r[0] == s[i] && r[1] == rest[0]);
                }
            }
        }
    }
}

proof fn lemma_replace_space(s: Seq<char>, c: char, d1: char, d2: char, d3: char)
    requires
        c != ' ', d1 != ' ', d2 != ' ', d3 != ' ',
        c != nbsp(), d1 != nbsp(), d2 != nbsp(), d3 != nbsp(),
    ensures ({
        let r = replace_all(s, seq![' ', c], seq![nbsp(), c]);
        &&& no_space_before(r, c)
        &&& (d1 != c && no_space_before(s, d1)) ==> no_space_before(r, d1)
        &&& (d2 != c && no_space_before(s, d2)) ==> no_space_before(r, d2)
        &&& (d3 != c && no_space_before(s, d3)) ==> no_space_before(r, d3)
    }),
{
    assert(s.skip(0) == s);
    lemma_space_replaced(s, c, d1, 0);
    lemma_space_replaced(s, c, d2, 0);
    lemma_space_replaced(s, c, d3, 0);
}

/// French typography never leaves a plain space before `? ! : ;`: each one
/// that had a space before it now has a no-break space.
pub proof fn lemma_no_plain_space_before_punctuation(s: Seq<char>)
    ensures
        no_space_before(french_typography(s), '?'),
        no_space_before(french_typography(s), '!'),
        no_space_before(french_typography(s), ':'),
        no_space_before(french_typography(s), ';'),
{
    let a = replace_all(s, seq!['.', '.', '.'], seq!['\u{2026}']);
    let b = replace_all(a, seq!['\''], seq!['\u{2019}']);
    let c = guillemets(b);
    let d = replace_all(c, seq![' ', '?'], seq![nbsp(), '?']);
    let e = replace_all(d, seq![' ', '!'], seq![nbsp(), '!']);
    let f = replace_all(e, seq![' ', ':'], seq![nbsp(), ':']);
    let g = replace_all(f, seq![' ', ';'], seq![nbsp(), ';']);
    lemma_replace_space(c, '?', '!', ':', ';');
    lemma_replace_space(d, '!', '?', ':', ';');
    lemma_replace_space(e, ':', '?', '!', ';');
    lemma_replace_space(f, ';', '?', '!', ':');
    if starts_with(g, seq!['-', ' ']) {
        let t = seq!['\u{2013}', ' '] + g.skip(2);
        assert(g[0] == '-' && g[1] == ' ') by {
            assert(g.subrange(0, 2) == seq!['-', ' ']);
            assert(g.subrange(0, 2)[0] == g[0] && g.subrange(0, 2)[1] == g[1]);
        }
        assert forall|k: int| 0 <= k < t.len() - 1 implies
            !(#[trigger] t[k] == ' ' && (t[k + 1] == '?' || t[k + 1] == '!' || t[k + 1] == ':' || t[k + 1] == ';')) by {
            if k >= 1 { assert(t[k] == g[k] && t[k + 1] == g[k + 1]); }
        }
    }
}

/// Three dots start at index `k` of `x`.
pub open spec fn three_dots_at(x: Seq<char>, k: int) -> bool {
    0 <= k && k + 2 < x.len() && x[k] == '.' && x[k + 1] == '.' && x[k + 2] == '.'
}

/// No three consecutive dots anywhere in `x`.
pub open spec fn no_three_dots(x: Seq<char>) -> bool {
    forall|k: int| !#[trigger] three_dots_at(x, k)
}

/// No dot among the characters of `x`.
pub open spec fn dotless(x: Seq<char>) -> bool {
    forall|k: int| 0 <= k < x.len() ==> #[trigger] x[k] != '.'
}

proof fn lemma_three_dots_shift(x: Seq<char>, y: Seq<char>, k: int)
    requires three_dots_at(x + y, k), k >= x.len(),
    ensures three_dots_at(y, k - x.len()),
{
    assert((x + y)[k] == y[k - x.len()]);
    assert((x + y)[k + 1] == y[k + 1 - x.len()]);
    assert((x + y)[k + 2] == y[k + 2 - x.len()]);
}

/// Replacing every "..." from index `i` leaves no three dots, and a result
/// that starts with a dot keeps the text's dot there, unmatched.
proof fn lemma_ellipsis_scan(s: Seq<char>, i: int)
    requires 0 <= i <= s.len(),
    ensures ({
        let r = replace_from(s, s, seq!['.', '.', '.'], seq!['\u{2026}'], i);
        &&& no_three_dots(r)
        &&& r.len() > 0 && r[0] == '.' ==> i < s.len() && s[i] == '.'
            && !matches_at(s, seq!['.', '.', '.'], i)
            && r == seq![s[i]] + replace_from(s, s, seq!['.', '.', '.'], seq!['\u{2026}'], i + 1)
    }),
    decreases s.len() - i,
{
    let p = seq!['.', '.', '.'];
    let q = seq!['\u{2026}'];
    let r = replace_from(s, s, p, q, i);
    if i < s.len() {
        if matches_at(s, p, i) && i + 3 <= s.len() {
            lemma_ellipsis_scan(s, i + 3);
            let rest = replace_from(s, s, p, q, i + 3);
            assert(r == q + rest);
            assert forall|k: int| !#[trigger] three_dots_at(r, k) by {
                if three_dots_at(r, k) {
                    if k >= 1 { lemma_three_dots_shift(q, rest, k); } else { assert(r[0] == '\u{2026}'); }
                }
            }
        } else {
            lemma_ellipsis_scan(s, i + 1);
            let rest = replace_from(s, s, p, q, i + 1);
            assert(r == seq![s[i]] + rest);
            assert forall|k: int| !#[trigger] three_dots_at(r, k) by {
                if three_dots_at(r, k) {
                    if k >= 1 {
                        lemma_three_dots_shift(seq![s[i]], rest, k);
                    } else {
                        assert(r[1] == rest[0] && r[2] == rest[1]);
                        assert(s[i + 1] == '.');
                        lemma_ellipsis_scan(s, i + 2);
                        let rest2 = replace_from(s, s, p, q, i + 2);
                        assert(rest[1] == rest2[0]);
                        assert(s[i + 2] == '.');
                        assert(s.subrange(i, i + 3) == p);
                    }
                }
            }
        }
    } else {
        assert(r == s.skip(i));
        assert(r.len() == 0);
    }
}

/// Replacing a pattern without dots by a non-empty replacement without
/// dots, from index `i`, keeps a text free of three dots free of them.
proof fn lemma_dotless_scan(x: Seq<char>, p: Seq<char>, q: Seq<char>, i: int)
    requires
        0 <= i <= x.len(),
        p.len() > 0,
        q.len() > 0,
        dotless(p),
        dotless(q),
        no_three_dots(x),
    ensures ({
        let r = replace_from(x, x, p, q, i);
        &&& no_three_dots(r)
        &&& r.len() > 0 && r[0] == '.' ==> i < x.len() && x[i] == '.'
            && r == seq![x[i]] + replace_from(x, x, p, q, i + 1)
    }),
    decreases x.len() - i,
{
    let r = replace_from(x, x, p, q, i);
    if i < x.len() {
        if matches_at(x, p, i) && i + p.len() <= x.len() {
            lemma_dotless_scan(x, p, q, i + p.len());
            let rest = replace_from(x, x, p, q, i + p.len());
            assert(r == q + rest);
            assert forall|k: int| !#[trigger] three_dots_at(r, k) by {
                if three_dots_at(r, k) {
                    if k >= q.len() {
                        lemma_three_dots_shift(q, rest, k);
                    } else {
                        assert(r[k] == q[k]);
                    }
                }
            }
            assert(r[0] == q[0]);
        } else {
            lemma_dotless_scan(x, p, q, i + 1);
            let rest = replace_from(x, x, p, q, i + 1);
            assert(r == seq![x[i]] + rest);
            assert forall|k: int| !#[trigger] three_dots_at(r, k) by {
                if three_dots_at(r, k) {
                    if k >= 1 {
                        lemma_three_dots_shift(seq![x[i]], rest, k);
                    } else {
                        assert(r[1] == rest[0] && r[2] == rest[1]);
                        lemma_dotless_scan(x, p, q, i + 2);
                        let rest2 = replace_from(x, x, p, q, i + 2);
                        assert(rest[1] == rest2[0]);
                        assert(three_dots_at(x, i));
                    }
                }
            }
        }
    } else {
        assert(r == x.skip(i));
        assert(r.len() == 0);
    }
}

proof fn lemma_guillemets_scan(s: Seq<char>, i: int, open: bool)
    requires 0 <= i <= s.len(), no_three_dots(s),
    ensures ({
        let r = guillemets_from(s, i, open);
        &&& no_three_dots(r)
        &&& r.len() > 0 && r[0] == '.' ==> i < s.len() && s[i] == '.'
            && r == seq![s[i]] + guillemets_from(s, i + 1, open)
    }),
    decreases s.len() - i,
{
    let r = guillemets_from(s, i, open);
    if i < s.len() {
        if s[i] == '"' {
            lemma_guillemets_scan(s, i + 1, !open);
            let q = if open { seq![nbsp(), '»'] } else { seq!['«', nbsp()] };
            let rest = guillemets_from(s, i + 1, !open);
            assert(r == q + rest);
            assert forall|k: int| !#[trigger] three_dots_at(r, k) by {
                if three_dots_at(r, k) {
                    if k >= 2 { lemma_three_dots_shift(q, rest, k); } else { assert(r[k] == q[k]); }
                }
            }
            assert(r[0] == q[0]);
        } else {
            lemma_guillemets_scan(s, i + 1, open);
            let rest = guillemets_from(s, i + 1, open);
            assert(r == seq![s[i]] + rest);
            assert forall|k: int| !#[trigger] three_dots_at(r, k) by {
                if three_dots_at(r, k) {
                    if k >= 1 {
                        lemma_three_dots_shift(seq![s[i]], rest, k);
                    } else {
                        assert(r[1] == rest[0] && r[2] == rest[1]);
                        assert(s[i + 1] == '.' && s[i + 1] != '"');
                        lemma_guillemets_scan(s, i + 2, open);
                        let rest2 = guillemets_from(s, i + 2, open);
                        assert(rest[1] == rest2[0]);
                        assert(three_dots_at(s, i));
                    }
                }
            }
        }
    }
}

proof fn lemma_dotless_replace(x: Seq<char>, p: Seq<char>, q: Seq<char>)
    requires p.len() > 0, q.len() > 0, dotless(p), dotless(q), no_three_dots(x),
    ensures no_three_dots(replace_all(x, p, q)),
{
    lemma_dotless_scan(x, p, q, 0);
}

/// French typography leaves no three consecutive dots: every "..." of the
/// text, wherever it stands, becomes an ellipsis character, and the later
/// replacements bring no dot in.
pub proof fn lemma_no_three_dots_after_typography(s: Seq<char>)
    ensures
        !crate::text::contains(french_typography(s), seq!['.', '.', '.']),
{
    let a = replace_all(s, seq!['.', '.', '.'], seq!['\u{2026}']);
    let b = replace_all(a, seq!['\''], seq!['\u{2019}']);
    let c = guillemets(b);
    let d = replace_all(c, seq![' ', '?'], seq![nbsp(), '?']);
    let e = replace_all(d, seq![' ', '!'], seq![nbsp(), '!']);
    let f = replace_all(e, seq![' ', ':'], seq![nbsp(), ':']);
    let g = replace_all(f, seq![' ', ';'], seq![nbsp(), ';']);
    lemma_ellipsis_scan(s, 0);
    assert(dotless(seq!['\'']) && dotless(seq!['\u{2019}']));
    lemma_dotless_replace(a, seq!['\''], seq!['\u{2019}']);
    lemma_guillemets_scan(b, 0, false);
    assert(dotless(seq![' ', '?']) && dotless(seq![nbsp(), '?']));
    assert(dotless(seq![' ', '!']) && dotless(seq![nbsp(), '!']));
    assert(dotless(seq![' ', ':']) && dotless(seq![nbsp(), ':']));
    assert(dotless(seq![' ', ';']) && dotless(seq![nbsp(), ';']));
    lemma_dotless_replace(c, seq![' ', '?'], seq![nbsp(), '?']);
    lemma_dotless_replace(d, seq![' ', '!'], seq![nbsp(), '!']);
    lemma_dotless_replace(e, seq![' ', ':'], seq![nbsp(), ':']);
    lemma_dotless_replace(f, seq![' ', ';'], seq![nbsp(), ';']);
    let r = french_typography(s);
    assert(no_three_dots(r)) by {
        if starts_with(g, seq!['-', ' ']) {
            let t = seq!['\u{2013}', ' '] + g.skip(2);
            assert forall|k: int| !#[trigger] three_dots_at(t, k) by {
                if three_dots_at(t, k) {
                    if k >= 2 {
                        assert(t[k] == g[k] && t[k + 1] == g[k + 1] && t[k + 2] == g[k + 2]);
                        assert(three_dots_at(g, k));
                    } else {
                        assert(t[k] == seq!['\u{2013}', ' '][k]);
                    }
                }
            }
        }
    }
    if crate::text::contains(r, seq!['.', '.', '.']) {
        let k = choose|k: int| matches_at(r, seq!['.', '.', '.'], k);
        let w = r.subrange(k, k + 3);
        assert(w[0] == r[k] && w[1] == r[k + 1] && w[2] == r[k + 2]);
        assert(three_dots_at(r, k));
    }
}

} // verus!
