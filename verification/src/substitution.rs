//! Abbreviation and correction rules applied to a transcription.
use vstd::prelude::*;
use crate::text::{
    chars_of, contains, lowercase, matches_at, owned, replace_all, replace_chars, string_of, to_lowercase,
};

verus! {

broadcast use vstd::seq_lib::group_seq_properties;

/// One rule: every occurrence of `from` becomes `to`.
#[derive(Debug, Clone)]
pub struct Substitution {
    pub from: String,
    pub to: String,
    pub case_insensitive: bool,
}

impl Substitution {
    /// A field-for-field copy.
    pub fn duplicate(&self) -> (r: Self)
        ensures r == *self,
    {
        Substitution { from: self.from.clone(), to: self.to.clone(), case_insensitive: self.case_insensitive }
    }
}

/// At most this many rules are applied.
pub const MAX_RULES: usize = 100;

/// The length in bytes of the UTF-8 encoding of a text (`str::len`).
pub open spec fn byte_len(s: Seq<char>) -> nat {
    vstd::utf8::encode_utf8(s).len()
}

/// The rules that take part: those with a non-empty `from`, the first
/// `MAX_RULES` of them.
pub open spec fn active_rules(rules: Seq<Substitution>) -> Seq<Substitution> {
    let f = rules.filter(|r: Substitution| r.from@.len() > 0);
    if f.len() > MAX_RULES { f.take(MAX_RULES as int) } else { f }
}

/// Inserts `r` into rules ordered by decreasing byte length of `from`, after
/// every rule whose `from` is at least as long.
pub open spec fn insert_by_len(sorted: Seq<Substitution>, r: Substitution) -> Seq<Substitution>
    decreases sorted.len(),
{
    if sorted.len() == 0 {
        seq![r]
    } else if byte_len(sorted.last().from@) >= byte_len(r.from@) {
        sorted.push(r)
    } else {
        insert_by_len(sorted.drop_last(), r).push(sorted.last())
    }
}

/// The rules ordered by decreasing byte length of `from`, rules of equal
/// length keeping their order (a stable sort, longest first).
pub open spec fn sort_by_len(rules: Seq<Substitution>) -> Seq<Substitution>
    decreases rules.len(),
{
    if rules.len() == 0 { seq![] } else { insert_by_len(sort_by_len(rules.drop_last()), rules.last()) }
}

/// The length in bytes of the UTF-8 encoding of a character.
pub open spec fn utf8_width(c: char) -> nat {
    if (c as u32) < 0x80 { 1 } else if (c as u32) < 0x800 { 2 } else if (c as u32) < 0x10000 { 3 } else { 4 }
}

/// The byte offset of character `k` of `s` in its UTF-8 encoding (what a
/// `str` index counts).
pub open spec fn byte_offset(s: Seq<char>, k: int) -> nat
    decreases k,
{
    if k <= 0 { 0 } else { byte_offset(s, k - 1) + utf8_width(s[k - 1]) }
}

/// The character of `s` that starts at byte offset `b`, searching from
/// character `i` on; `None` when `b` is not a character boundary there.
pub open spec fn char_at_byte(s: Seq<char>, b: nat, i: int) -> Option<int>
    decreases s.len() - i,
{
    if i < 0 || i > s.len() {
        None
    } else if byte_offset(s, i) == b {
        Some(i)
    } else if byte_offset(s, i) > b || i == s.len() {
        None
    } else {
        char_at_byte(s, b, i + 1)
    }
}

/// The first place at or after `i` where `p` occurs in `s` (`str::find`).
pub open spec fn first_match(s: Seq<char>, p: Seq<char>, i: int) -> Option<int>
    decreases s.len() - i,
{
    if i < 0 || i > s.len() {
        None
    } else if matches_at(s, p, i) {
        Some(i)
    } else if i == s.len() {
        None
    } else {
        first_match(s, p, i + 1)
    }
}

/// `x` in front of a result, if there is one.
pub open spec fn prepend(x: Seq<char>, o: Option<Seq<char>>) -> Option<Seq<char>> {
    match o {
        Some(r) => Some(x + r),
        None => None,
    }
}

/// A case-insensitive rule applied from character `it` of the text `s` and
/// character `il` of its lowercase `low`, both at the same byte offset: the
/// lowercased `from` (`pat`) is searched in `low`; the text up to the byte
/// offset of the match is kept, `to` is written, and the scan goes on
/// `fw` bytes (the length of `from`) after the match. The byte offsets are
/// applied to the text and to its lowercase alike; `None` where one of them
/// falls inside a character or beyond the end (there the slicing fails).
pub open spec fn ci_from(s: Seq<char>, low: Seq<char>, pat: Seq<char>, fw: nat, to: Seq<char>, it: int, il: int)
    -> Option<Seq<char>>
    decreases low.len() - il,
{
    if il < 0 || il > low.len() || it < 0 || it > s.len() {
        None
    } else {
        match first_match(low, pat, il) {
            None => Some(s.skip(it)),
            Some(j) => {
                let abs = byte_offset(low, j);
                match char_at_byte(s, abs, it) {
                    None => None,
                    Some(jt) => match char_at_byte(low, abs + fw, j) {
                        None => None,
                        Some(kl) => match char_at_byte(s, abs + fw, jt) {
                            None => None,
                            Some(kt) => if kl <= il || kl > low.len() {
                                None
                            } else {
                                prepend(s.subrange(it, jt) + to, ci_from(s, low, pat, fw, to, kt, kl))
                            },
                        },
                    },
                }
            },
        }
    }
}

/// One rule applied to a text. A case-sensitive rule replaces every
/// occurrence of `from`, left to right. A case-insensitive rule lowercases
/// the whole text once (so context rules such as the Greek final sigma
/// apply), searches the lowercased `from` in it from the left, and replaces
/// the text at the same byte offsets, moving on by the byte length of
/// `from` after each match (`ci_from`). Where lowercasing has shifted the
/// offsets so that one falls inside a character or past the end of the text
/// or of its lowercase, the slicing cannot be done and the rule leaves the
/// text as it is.
pub open spec fn apply_rule(r: Substitution, s: Seq<char>) -> Seq<char> {
    if r.case_insensitive {
        match ci_from(s, lowercase(s), lowercase(r.from@), byte_offset(r.from@, r.from@.len() as int), r.to@, 0, 0) {
            Some(x) => x,
            None => s,
        }
    } else {
        replace_all(s, r.from@, r.to@)
    }
}

/// The rules applied one after the other, the first one first.
pub open spec fn apply_in_order(rules: Seq<Substitution>, s: Seq<char>) -> Seq<char>
    decreases rules.len(),
{
    if rules.len() == 0 { s } else { apply_rule(rules.last(), apply_in_order(rules.drop_last(), s)) }
}

/// What `apply` returns: the active rules, longest `from` first, applied in turn.
pub open spec fn substituted(rules: Seq<Substitution>, text: Seq<char>) -> Seq<char> {
    apply_in_order(sort_by_len(active_rules(rules)), text)
}

fn sub(from: &str, to: &str) -> (r: Substitution)
    ensures r.from@ == from@, r.to@ == to@, r.case_insensitive,
{
    Substitution { from: owned(from), to: owned(to), case_insensitive: true }
}

/// The common French abbreviations of spoken or texted language.
pub fn french_defaults() -> (v: Vec<Substitution>)
    ensures
        v@.len() == 15,
        forall|i: int| 0 <= i < v@.len() ==> (#[trigger] v@[i]).case_insensitive,
        v@[0].from@ == "dc"@ && v@[0].to@ == "donc"@,
        v@[1].from@ == "pk"@ && v@[1].to@ == "pourquoi"@,
        v@[2].from@ == "pcq"@ && v@[2].to@ == "parce que"@,
        v@[3].from@ == "pr"@ && v@[3].to@ == "pour"@,
        v@[4].from@ == "tt"@ && v@[4].to@ == "tout"@,
        v@[5].from@ == "tjs"@ && v@[5].to@ == "toujours"@,
        v@[6].from@ == "jsp"@ && v@[6].to@ == "je ne sais pas"@,
        v@[7].from@ == "jsuis"@ && v@[7].to@ == "je suis"@,
        v@[8].from@ == "jvais"@ && v@[8].to@ == "je vais"@,
        v@[9].from@ == "cad"@ && v@[9].to@ == "c'est-à-dire"@,
        v@[10].from@ == "svp"@ && v@[10].to@ == "s'il vous plaît"@,
        v@[11].from@ == "stp"@ && v@[11].to@ == "s'il te plaît"@,
        v@[12].from@ == "rdv"@ && v@[12].to@ == "rendez-vous"@,
        v@[13].from@ == "asap"@ && v@[13].to@ == "dès que possible"@,
        v@[14].from@ == "ok"@ && v@[14].to@ == "d'accord"@,
{
    let mut v: Vec<Substitution> = Vec::new();
    v.push(self::sub("dc", "donc"));
    v.push(self::sub("pk", "pourquoi"));
    v.push(self::sub("pcq", "parce que"));
    v.push(self::sub("pr", "pour"));
    v.push(self::sub("tt", "tout"));
    v.push(self::sub("tjs", "toujours"));
    v.push(self::sub("jsp", "je ne sais pas"));
    v.push(self::sub("jsuis", "je suis"));
    v.push(self::sub("jvais", "je vais"));
    v.push(self::sub("cad", "c'est-à-dire"));
    v.push(self::sub("svp", "s'il vous plaît"));
    v.push(self::sub("stp", "s'il te plaît"));
    v.push(self::sub("rdv", "rendez-vous"));
    v.push(self::sub("asap", "dès que possible"));
    v.push(self::sub("ok", "d'accord"));
    v
}

/// The rules with a non-empty `from`, at most `MAX_RULES` of them.
fn select_active(rules: &[Substitution]) -> (r: Vec<Substitution>)
    ensures
        r@ == active_rules(rules@),
{
    let ghost pred = |r: Substitution| r.from@.len() > 0;
    let mut out: Vec<Substitution> = Vec::new();
    let mut i: usize = 0;
    while i < rules.len()
        invariant
            i <= rules@.len(),
            out@ == active_rules(rules@.take(i as int)),
            out@.len() <= MAX_RULES,
            pred == (|r: Substitution| r.from@.len() > 0),
        decreases rules@.len() - i,
    {
        let ghost t = rules@.take(i as int + 1);
        assert(t.drop_last() == rules@.take(i as int));
        assert(t.last() == rules@[i as int]);
        reveal_with_fuel(Seq::filter, 1);
        let ghost f0 = rules@.take(i as int).filter(pred);
        assert(t.filter(pred) == if pred(t.last()) { f0.push(t.last()) } else { f0 });
        if !rules[i].from.as_str().is_empty() && out.len() < MAX_RULES {
            proof {
                assert(f0.len() < MAX_RULES);
                assert(active_rules(t) == f0.push(t.last()));
            }
            out.push(rules[i].duplicate());
        } else {
            proof {
                if rules@[i as int].from@.len() > 0 {
                    assert(out@.len() >= MAX_RULES);
                    assert(f0.len() >= MAX_RULES);
                    assert(f0.push(t.last()).take(MAX_RULES as int) =~= f0.take(MAX_RULES as int));
                    assert(active_rules(t) == out@);
                } else {
                    assert(t.filter(pred) == f0);
                }
            }
        }
        i += 1;
    }
    assert(rules@.take(rules@.len() as int) == rules@);
    out
}

proof fn lemma_insert_at(sorted: Seq<Substitution>, r: Substitution, j: int)
    requires
        0 <= j <= sorted.len(),
        forall|k: int| j <= k < sorted.len() ==> byte_len((#[trigger] sorted[k]).from@) < byte_len(r.from@),
        j == 0 || byte_len(sorted[j - 1].from@) >= byte_len(r.from@),
    ensures
        insert_by_len(sorted, r) == sorted.take(j).push(r) + sorted.skip(j),
    decreases sorted.len() - j,
{
    if j == sorted.len() {
        assert(sorted.take(j) == sorted);
        assert(sorted.skip(j) == Seq::<Substitution>::empty());
        assert(sorted.push(r) + Seq::<Substitution>::empty() == sorted.push(r));
    } else {
        let d = sorted.drop_last();
        assert forall|k: int| j <= k < d.len() implies byte_len((#[trigger] d[k]).from@) < byte_len(r.from@) by {
            assert(d[k] == sorted[k]);
        }
        if j > 0 {
            assert(d[j - 1] == sorted[j - 1]);
        }
        lemma_insert_at(d, r, j);
        assert(d.take(j) == sorted.take(j));
        assert(d.skip(j).push(sorted.last()) == sorted.skip(j));
        assert((d.take(j).push(r) + d.skip(j)).push(sorted.last()) == sorted.take(j).push(r) + sorted.skip(j));
    }
}

/// The rules, longest `from` first, equal lengths in their given order.
fn sort_rules(rules: &Vec<Substitution>) -> (r: Vec<Substitution>)
    ensures
        r@ == sort_by_len(rules@),
{
    let mut out: Vec<Substitution> = Vec::new();
    let mut i: usize = 0;
    while i < rules.len()
        invariant
            i <= rules@.len(),
            out@ == sort_by_len(rules@.take(i as int)),
        decreases rules@.len() - i,
    {
        let key = rules[i].from.as_str().as_bytes().len();
        assert(key == byte_len(rules@[i as int].from@));
        let mut j: usize = out.len();
        while j > 0 && out[j - 1].from.as_str().as_bytes().len() < key
            invariant
                j <= out@.len(),
                key == byte_len(rules@[i as int].from@),
                forall|k: int| j <= k < out@.len() ==> byte_len((#[trigger] out@[k]).from@) < key,
            decreases j,
        {
            j -= 1;
        }
        let ghost before = out@;
        proof {
            lemma_insert_at(before, rules@[i as int], j as int);
            let t = rules@.take(i as int + 1);
            assert(t.drop_last() == rules@.take(i as int));
            assert(t.last() == rules@[i as int]);
        }
        out.insert(j, rules[i].duplicate());
        assert(out@ == before.take(j as int).push(rules@[i as int]) + before.skip(j as int));
        i += 1;
    }
    assert(rules@.take(rules@.len() as int) == rules@);
    out
}

fn char_width(c: char) -> (w: u128)
    ensures w == utf8_width(c),
{
    let u = c as u32;
    if u < 0x80 { 1 } else if u < 0x800 { 2 } else if u < 0x10000 { 3 } else { 4 }
}

proof fn lemma_byte_offset_bound(s: Seq<char>, k: int)
    requires 0 <= k,
    ensures byte_offset(s, k) <= 4 * k,
    decreases k,
{
    if k > 0 {
        lemma_byte_offset_bound(s, k - 1);
    }
}

/// `byte_offset(s, j)`, counted on from character `i` at byte offset `bi`.
fn advance_bytes(s: &[char], i: usize, bi: u128, j: usize) -> (b: u128)
    requires
        i <= j <= s@.len(),
        bi == byte_offset(s@, i as int),
    ensures
        b == byte_offset(s@, j as int),
{
    let mut k = i;
    let mut bk = bi;
    while k < j
        invariant
            i <= k <= j <= s@.len(),
            bk == byte_offset(s@, k as int),
        decreases j - k,
    {
        proof { lemma_byte_offset_bound(s@, k as int + 1); }
        bk = bk + char_width(s[k]);
        k += 1;
    }
    bk
}

/// `char_at_byte(s, b, i)`, with the byte offset `bi` of character `i`.
fn char_at_byte_exec(s: &[char], b: u128, i: usize, bi: u128) -> (r: Option<(usize, u128)>)
    requires
        i <= s@.len(),
        bi == byte_offset(s@, i as int),
    ensures
        match r {
            Some((k, bk)) => char_at_byte(s@, b as nat, i as int) == Some(k as int) && bk == byte_offset(s@, k as int),
            None => char_at_byte(s@, b as nat, i as int) is None,
        },
{
    let mut k = i;
    let mut bk = bi;
    loop
        invariant
            i <= k <= s@.len(),
            bk == byte_offset(s@, k as int),
            char_at_byte(s@, b as nat, i as int) == char_at_byte(s@, b as nat, k as int),
        decreases s@.len() - k,
    {
        if bk == b {
            return Some((k, bk));
        }
        if bk > b || k == s.len() {
            return None;
        }
        proof { lemma_byte_offset_bound(s@, k as int + 1); }
        bk = bk + char_width(s[k]);
        k += 1;
    }
}

/// `first_match(s, p, i)`.
fn first_match_exec(s: &[char], p: &[char], i: usize) -> (r: Option<usize>)
    requires i <= s@.len(),
    ensures
        match r {
            Some(j) => first_match(s@, p@, i as int) == Some(j as int),
            None => first_match(s@, p@, i as int) is None,
        },
{
    let mut k = i;
    loop
        invariant
            i <= k <= s@.len(),
            first_match(s@, p@, i as int) == first_match(s@, p@, k as int),
        decreases s@.len() - k,
    {
        if crate::text::match_at(s, p, k) {
            return Some(k);
        }
        if k == s.len() {
            return None;
        }
        k += 1;
    }
}

/// An optional character vector by its view.
pub open spec fn opt_chars(o: Option<Vec<char>>) -> Option<Seq<char>> {
    match o {
        Some(v) => Some(v@),
        None => None,
    }
}

fn push_all(out: &mut Vec<char>, x: &[char])
    ensures final(out)@ == old(out)@ + x@,
{
    let ghost start = out@;
    let mut k: usize = 0;
    while k < x.len()
        invariant
            k <= x@.len(),
            out@ == start + x@.take(k as int),
        decreases x@.len() - k,
    {
        out.push(x[k]);
        assert(x@.take(k as int + 1) == x@.take(k as int).push(x@[k as int]));
        k += 1;
    }
    assert(x@.take(x@.len() as int) == x@);
}

/// `ci_from(s, low, pat, fw, to, 0, 0)`.
fn ci_replace(s: &[char], low: &[char], pat: &[char], fw: u128, to: &[char]) -> (r: Option<Vec<char>>)
    requires fw <= 0x1_0000_0000_0000_0000_0000,
    ensures opt_chars(r) == ci_from(s@, low@, pat@, fw as nat, to@, 0, 0),
{
    let mut out: Vec<char> = Vec::new();
    let mut it: usize = 0;
    let mut il: usize = 0;
    let mut bt: u128 = 0;
    let mut bl: u128 = 0;
    loop
        invariant
            it <= s@.len(),
            il <= low@.len(),
            bt == byte_offset(s@, it as int),
            bl == byte_offset(low@, il as int),
            fw <= 0x1_0000_0000_0000_0000_0000,
            ci_from(s@, low@, pat@, fw as nat, to@, 0, 0)
                == prepend(out@, ci_from(s@, low@, pat@, fw as nat, to@, it as int, il as int)),
        decreases low@.len() - il,
    {
        let ghost before = out@;
        match first_match_exec(low, pat, il) {
            None => {
                let tail = vstd::slice::slice_subrange(s, it, s.len());
                push_all(&mut out, tail);
                assert(tail@ == s@.skip(it as int));
                return Some(out);
            },
            Some(j) => {
                proof {
                    assert(first_match(low@, pat@, il as int) == Some(j as int));
                    lemma_first_match_range(low@, pat@, il as int);
                    lemma_byte_offset_bound(low@, j as int);
                }
                let abs = advance_bytes(low, il, bl, j);
                match char_at_byte_exec(s, abs, it, bt) {
                    None => return None,
                    Some((jt, bj)) => {
                        match char_at_byte_exec(low, abs + fw, j, abs) {
                            None => return None,
                            Some((kl, bkl)) => {
                                proof { lemma_char_at_byte_range(s@, abs as nat, it as int); }
                                match char_at_byte_exec(s, abs + fw, jt, bj) {
                                    None => return None,
                                    Some((kt, bkt)) => {
                                        proof {
                                            lemma_char_at_byte_range(low@, (abs + fw) as nat, j as int);
                                            lemma_char_at_byte_range(s@, (abs + fw) as nat, jt as int);
                                        }
                                        if kl <= il {
                                            return None;
                                        }
                                        let piece = vstd::slice::slice_subrange(s, it, jt);
                                        push_all(&mut out, piece);
                                        push_all(&mut out, to);
                                        proof {
                                            assert(piece@ == s@.subrange(it as int, jt as int));
                                            let rest = ci_from(s@, low@, pat@, fw as nat, to@, kt as int, kl as int);
                                            assert(ci_from(s@, low@, pat@, fw as nat, to@, it as int, il as int)
                                                == prepend(s@.subrange(it as int, jt as int) + to@, rest));
                                            match rest {
                                                Some(x) => {
                                                    assert(before + (s@.subrange(it as int, jt as int) + to@ + x)
                                                        == out@ + x);
                                                },
                                                None => {},
                                            }
                                        }
                                        it = kt;
                                        il = kl;
                                        bt = bkt;
                                        bl = bkl;
                                    },
                                }
                            },
                        }
                    },
                }
            },
        }
    }
}

proof fn lemma_first_match_range(s: Seq<char>, p: Seq<char>, i: int)
    ensures first_match(s, p, i) matches Some(j) ==> i <= j <= s.len() && matches_at(s, p, j),
    decreases s.len() - i,
{
    if 0 <= i < s.len() && !matches_at(s, p, i) {
        lemma_first_match_range(s, p, i + 1);
    }
}

proof fn lemma_char_at_byte_range(s: Seq<char>, b: nat, i: int)
    ensures char_at_byte(s, b, i) matches Some(k) ==> i <= k <= s.len() && byte_offset(s, k) == b,
    decreases s.len() - i,
{
    if 0 <= i < s.len() && byte_offset(s, i) < b {
        lemma_char_at_byte_range(s, b, i + 1);
    }
}

fn apply_one(rule: &Substitution, s: Vec<char>) -> (r: Vec<char>)
    requires rule.from@.len() > 0,
    ensures r@ == apply_rule(*rule, s@),
{
    let from = chars_of(rule.from.as_str());
    let to = chars_of(rule.to.as_str());
    if rule.case_insensitive {
        let current = string_of(s.as_slice());
        let low = chars_of(to_lowercase(current.as_str()).as_str());
        let pat = chars_of(to_lowercase(rule.from.as_str()).as_str());
        proof { lemma_byte_offset_bound(from@, from@.len() as int); }
        let fw = advance_bytes(from.as_slice(), 0, 0, from.len());
        match ci_replace(s.as_slice(), low.as_slice(), pat.as_slice(), fw, to.as_slice()) {
            Some(v) => v,
            None => s,
        }
    } else {
        replace_chars(s.as_slice(), from.as_slice(), to.as_slice())
    }
}

/// Applies the rules to a transcription: the rules with a non-empty `from`
/// (at most `MAX_RULES` of them), longest `from` first so that a long
/// abbreviation wins over a shorter one inside it, each replacing every
/// occurrence of its `from`.
pub fn apply(rules: &[Substitution], text: &str) -> (r: String)
    ensures r@ == substituted(rules@, text@),
{
    if rules.len() == 0 {
        return owned(text);
    }
    let active = select_active(rules);
    let sorted = sort_rules(&active);
    proof {
        let pred = |r: Substitution| r.from@.len() > 0;
        let f = rules@.filter(pred);
        assert forall|k: int| 0 <= k < active@.len() implies (#[trigger] active@[k]).from@.len() > 0 by {
            broadcast use vstd::seq_lib::group_filter_ensures;
            if f.len() > MAX_RULES { assert(active@[k] == f[k]); }
        }
    }
    let mut result = chars_of(text);
    let mut i: usize = 0;
    while i < sorted.len()
        invariant
            i <= sorted@.len(),
            sorted@ == sort_by_len(active@),
            forall|k: int| 0 <= k < active@.len() ==> (#[trigger] active@[k]).from@.len() > 0,
            result@ == apply_in_order(sorted@.take(i as int), text@),
        decreases sorted@.len() - i,
    {
        proof {
            lemma_sort_keeps(active@, sorted@[i as int]);
            let t = sorted@.take(i as int + 1);
            assert(t.drop_last() == sorted@.take(i as int));
            assert(t.last() == sorted@[i as int]);
        }
        result = apply_one(&sorted[i], result);
        i += 1;
    }
    assert(sorted@.take(sorted@.len() as int) == sorted@);
    string_of(result.as_slice())
}

proof fn lemma_insert_contains(sorted: Seq<Substitution>, r: Substitution, x: Substitution)
    requires insert_by_len(sorted, r).contains(x),
    ensures x == r || sorted.contains(x),
    decreases sorted.len(),
{
    if sorted.len() == 0 {
        assert(seq![r][0] == r);
    } else if byte_len(sorted.last().from@) >= byte_len(r.from@) {
        let i = choose|i: int| 0 <= i < sorted.push(r).len() && sorted.push(r)[i] == x;
        if i < sorted.len() { assert(sorted[i] == x); }
    } else {
        let d = sorted.drop_last();
        let s2 = insert_by_len(d, r).push(sorted.last());
        let i = choose|i: int| 0 <= i < s2.len() && s2[i] == x;
        if i < s2.len() - 1 {
            assert(insert_by_len(d, r)[i] == x);
            lemma_insert_contains(d, r, x);
            if d.contains(x) {
                let k = choose|k: int| 0 <= k < d.len() && d[k] == x;
                assert(sorted[k] == x);
            }
        } else {
            assert(sorted[sorted.len() - 1] == x);
        }
    }
}

/// Every rule of the sorted sequence is one of the given rules.
proof fn lemma_sort_keeps(rules: Seq<Substitution>, x: Substitution)
    requires sort_by_len(rules).contains(x),
    ensures rules.contains(x),
    decreases rules.len(),
{
    if rules.len() > 0 {
        lemma_insert_contains(sort_by_len(rules.drop_last()), rules.last(), x);
        if x == rules.last() {
            assert(rules[rules.len() - 1] == x);
        } else {
            lemma_sort_keeps(rules.drop_last(), x);
            let k = choose|k: int| 0 <= k < rules.drop_last().len() && rules.drop_last()[k] == x;
            assert(rules[k] == x);
        }
    }
}


proof fn lemma_filter_none_active(rules: Seq<Substitution>)
    requires forall|i: int| 0 <= i < rules.len() ==> (#[trigger] rules[i]).from@.len() == 0,
    ensures rules.filter(|r: Substitution| r.from@.len() > 0).len() == 0,
    decreases rules.len(),
{
    reveal_with_fuel(Seq::filter, 1);
    if rules.len() > 0 {
        lemma_filter_none_active(rules.drop_last());
    }
}

/// Rules whose `from` is empty take no part: with only such rules (or none)
/// the text comes back unchanged.
pub proof fn lemma_no_active_rules_keep_text(rules: Seq<Substitution>, text: Seq<char>)
    requires forall|i: int| 0 <= i < rules.len() ==> (#[trigger] rules[i]).from@.len() == 0,
    ensures substituted(rules, text) == text,
{
    lemma_filter_none_active(rules);
    assert(active_rules(rules) =~= Seq::<Substitution>::empty());
}


/// The rule's `from` does not occur in the text: as it is for a
/// case-sensitive rule, lowercased in the lowercased text for a
/// case-insensitive one.
pub open spec fn absent_from(r: Substitution, text: Seq<char>) -> bool {
    if r.case_insensitive {
        !contains(lowercase(text), lowercase(r.from@))
    } else {
        !contains(text, r.from@)
    }
}

proof fn lemma_absent_rule_keeps(r: Substitution, s: Seq<char>)
    requires absent_from(r, s),
    ensures apply_rule(r, s) == s,
{
    if r.case_insensitive {
        let low = lowercase(s);
        let pat = lowercase(r.from@);
        lemma_first_match_range(low, pat, 0);
        if first_match(low, pat, 0) is Some {
            let j = first_match(low, pat, 0)->0;
            assert(matches_at(low, pat, j));
        }
    } else {
        crate::text::lemma_replace_from_absent(s, s, r.from@, r.to@, 0);
    }
    assert(s.skip(0) == s);
}

proof fn lemma_in_order_keeps(rs: Seq<Substitution>, s: Seq<char>)
    requires forall|k: int| 0 <= k < rs.len() ==> apply_rule(#[trigger] rs[k], s) == s,
    ensures apply_in_order(rs, s) == s,
    decreases rs.len(),
{
    if rs.len() > 0 {
        lemma_in_order_keeps(rs.drop_last(), s);
        assert(apply_rule(rs[rs.len() - 1], s) == s);
    }
}

/// Rules whose `from` does not occur in the text (in lowercase, for
/// case-insensitive rules) leave it unchanged; so does an empty rule list.
pub proof fn lemma_absent_rules_keep_text(rules: Seq<Substitution>, text: Seq<char>)
    requires
        forall|i: int| 0 <= i < rules.len() && (#[trigger] rules[i]).from@.len() > 0 ==> absent_from(rules[i], text),
    ensures
        substituted(rules, text) == text,
{
    let pred = |r: Substitution| r.from@.len() > 0;
    let f = rules.filter(pred);
    let active = active_rules(rules);
    let sorted = sort_by_len(active);
    assert forall|k: int| 0 <= k < sorted.len() implies apply_rule(#[trigger] sorted[k], text) == text by {
        let x = sorted[k];
        assert(sorted.contains(x));
        lemma_sort_keeps(active, x);
        let j = choose|j: int| 0 <= j < active.len() && active[j] == x;
        assert(f.contains(x)) by {
            if f.len() > MAX_RULES { assert(f[j] == x); } else { assert(f[j] == x); }
        }
        rules.lemma_filter_contains_rev(pred, x);
        let fj = choose|fj: int| 0 <= fj < f.len() && f[fj] == x;
        rules.lemma_filter_pred(pred, fj);
        let m = choose|m: int| 0 <= m < rules.len() && rules[m] == x;
        assert(rules[m].from@.len() > 0);
        lemma_absent_rule_keeps(x, text);
    }
    lemma_in_order_keeps(sorted, text);
}

/// Each rule's `from` is at least as long (in bytes) as the next one's.
pub open spec fn longest_first(s: Seq<Substitution>) -> bool {
    forall|i: int, j: int| 0 <= i < j < s.len() ==> byte_len((#[trigger] s[i]).from@) >= byte_len((#[trigger] s[j]).from@)
}

proof fn lemma_insert_keeps_order(sorted: Seq<Substitution>, r: Substitution)
    requires longest_first(sorted),
    ensures
        longest_first(insert_by_len(sorted, r)),
        insert_by_len(sorted, r).len() == sorted.len() + 1,
    decreases sorted.len(),
{
    if sorted.len() > 0 && byte_len(sorted.last().from@) < byte_len(r.from@) {
        let d = sorted.drop_last();
        let last = sorted.last();
        assert(longest_first(d)) by {
            assert forall|i: int, j: int| 0 <= i < j < d.len() implies
                byte_len((#[trigger] d[i]).from@) >= byte_len((#[trigger] d[j]).from@) by {
                assert(d[i] == sorted[i] && d[j] == sorted[j]);
            }
        }
        lemma_insert_keeps_order(d, r);
        let ins = insert_by_len(d, r);
        assert forall|i: int| 0 <= i < ins.len() implies byte_len((#[trigger] ins[i]).from@) >= byte_len(last.from@) by {
            let x = ins[i];
            assert(ins.contains(x));
            lemma_insert_contains(d, r, x);
            if x != r {
                let k = choose|k: int| 0 <= k < d.len() && d[k] == x;
                assert(sorted[k] == x);
                assert(byte_len(sorted[k].from@) >= byte_len(sorted[sorted.len() - 1].from@));
            }
        }
        let res = ins.push(last);
        assert forall|i: int, j: int| 0 <= i < j < res.len() implies
            byte_len((#[trigger] res[i]).from@) >= byte_len((#[trigger] res[j]).from@) by {
            if j < ins.len() {
                assert(res[i] == ins[i] && res[j] == ins[j]);
            } else {
                assert(res[i] == ins[i]);
            }
        }
    } else if sorted.len() > 0 {
        let res = sorted.push(r);
        assert forall|i: int, j: int| 0 <= i < j < res.len() implies
            byte_len((#[trigger] res[i]).from@) >= byte_len((#[trigger] res[j]).from@) by {
            if j < sorted.len() {
                assert(res[i] == sorted[i] && res[j] == sorted[j]);
            } else {
                assert(res[i] == sorted[i]);
                if i < sorted.len() - 1 {
                    assert(byte_len(sorted[i].from@) >= byte_len(sorted[sorted.len() - 1].from@));
                }
            }
        }
    }
}

proof fn lemma_sort_order(rules: Seq<Substitution>)
    ensures
        longest_first(sort_by_len(rules)),
        sort_by_len(rules).len() == rules.len(),
    decreases rules.len(),
{
    if rules.len() > 0 {
        lemma_sort_order(rules.drop_last());
        lemma_insert_keeps_order(sort_by_len(rules.drop_last()), rules.last());
    }
}

proof fn lemma_active_from_rules(rules: Seq<Substitution>, k: int)
    requires 0 <= k < rules.filter(|r: Substitution| r.from@.len() > 0).len(),
    ensures
        rules.contains(rules.filter(|r: Substitution| r.from@.len() > 0)[k]),
        rules.filter(|r: Substitution| r.from@.len() > 0)[k].from@.len() > 0,
    decreases rules.len(),
{
    reveal_with_fuel(Seq::filter, 1);
    let d = rules.drop_last();
    let fd = d.filter(|r: Substitution| r.from@.len() > 0);
    if k < fd.len() {
        lemma_active_from_rules(d, k);
        let j = choose|j: int| 0 <= j < d.len() && d[j] == fd[k];
        assert(rules[j] == fd[k]);
    } else {
        assert(rules[rules.len() - 1] == rules.last());
    }
}

/// The rules take effect longest `from` first (in bytes), which keeps a
/// short rule from cutting into a longer one that contains it; every rule
/// applied is one of the given rules, with a non-empty `from`.
pub proof fn lemma_longest_rules_first(rules: Seq<Substitution>)
    ensures
        longest_first(sort_by_len(active_rules(rules))),
        forall|x: Substitution| sort_by_len(active_rules(rules)).contains(x) ==> rules.contains(x) && x.from@.len() > 0,
{
    broadcast use vstd::seq_lib::group_filter_ensures;
    let act = active_rules(rules);
    lemma_sort_order(act);
    let f = rules.filter(|r: Substitution| r.from@.len() > 0);
    assert forall|x: Substitution| sort_by_len(act).contains(x) implies rules.contains(x) && x.from@.len() > 0 by {
        lemma_sort_keeps(act, x);
        let k = choose|k: int| 0 <= k < act.len() && act[k] == x;
        assert(f[k] == x);
        lemma_active_from_rules(rules, k);
    }
}

} // verus!
