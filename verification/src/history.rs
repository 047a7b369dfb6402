//! The most recent transcriptions, newest first.
use vstd::prelude::*;
use std::collections::VecDeque;
use vstd::utf8::encode_utf8;
use crate::text::{
    chars_of, contains, contains_str, decimal, lowercase, owned, push_decimal, push_str, push_two_digits,
    string_of, to_lowercase, two_digits,
};

verus! {

/// One transcription and when it was made (seconds since the Unix epoch).
#[derive(Debug, Clone)]
pub struct HistoryEntry {
    pub text: String,
    pub timestamp: u64,
}

impl HistoryEntry {
    pub fn duplicate(&self) -> (r: Self)
        ensures r == *self,
    {
        HistoryEntry { text: self.text.clone(), timestamp: self.timestamp }
    }
}

/// The transcriptions, the most recent first.
#[derive(Debug, Clone)]
pub struct History {
    entries: VecDeque<HistoryEntry>,
}

impl View for History {
    type V = Seq<HistoryEntry>;

    closed spec fn view(&self) -> Seq<HistoryEntry> {
        self.entries@
    }
}

/// The current time in seconds since the Unix epoch (0 if the clock is
/// before it). Nothing is known of the value: it is the clock's.
#[verifier::external_body]
fn unix_now_secs() -> u64 {
    std::time::SystemTime::now()
        .duration_since(std::time::UNIX_EPOCH)
        .unwrap_or_default()
        .as_secs()
}

/// The number of entries kept for a limit: the limit, and at least one.
pub open spec fn kept_count(max: usize) -> nat {
    if max < 1 { 1 } else { max as nat }
}

/// The history after adding `e` in front, keeping at most `kept_count(max)` entries.
pub open spec fn pushed(h: Seq<HistoryEntry>, e: HistoryEntry, max: usize) -> Seq<HistoryEntry> {
    let all = seq![e] + h;
    if all.len() > kept_count(max) { all.take(kept_count(max) as int) } else { all }
}

/// `HH:MM` of the time of day (UTC) of a timestamp, preceded by `J-<days> `
/// when it is more than a day before `now`.
pub open spec fn time_label(ts: u64, now: u64) -> Seq<char> {
    let h = ((ts % 86400) / 3600) as nat;
    let m = ((ts % 3600) / 60) as nat;
    let hm = two_digits(h) + ":"@ + two_digits(m);
    let age: int = if now >= ts { now - ts } else { 0 };
    if age > 86400 { "J-"@ + decimal((age / 86400) as nat) + " "@ + hm } else { hm }
}

pub fn format_timestamp_at(ts: u64, now: u64) -> (r: String)
    ensures r@ == time_label(ts, now),
{
    let h = (ts % 86400) / 3600;
    let m = (ts % 3600) / 60;
    let age = if now >= ts { now - ts } else { 0 };
    let mut r = String::new();
    if age > 86400 {
        push_str(&mut r, "J-");
        push_decimal(&mut r, age / 86400);
        push_str(&mut r, " ");
    }
    push_two_digits(&mut r, h);
    push_str(&mut r, ":");
    push_two_digits(&mut r, m);
    proof { reveal_strlit(""); }
    r
}

/// The time of day of a timestamp, against the current clock.
pub fn format_timestamp(ts: u64) -> (r: String)
    ensures exists|now: u64| r@ == time_label(ts, now),
{
    format_timestamp_at(ts, unix_now_secs())
}

/// The length in bytes of the UTF-8 encoding of a text.
pub open spec fn byte_len(s: Seq<char>) -> nat {
    encode_utf8(s).len()
}

/// A text as the history list shows it: beyond 120 characters, its first
/// 117 characters and "...".
pub open spec fn shown_text(t: Seq<char>) -> Seq<char> {
    if t.len() > 120 { t.take(117) + "..."@ } else { t }
}

/// One line of the history list.
pub open spec fn display_line(i: int, e: HistoryEntry, now: u64) -> Seq<char> {
    decimal((i + 1) as nat) + ". ["@ + time_label(e.timestamp, now) + "]  "@ + shown_text(e.text@)
}

/// The lines of the history list for the first `n` entries.
pub open spec fn display_lines(h: Seq<HistoryEntry>, now: u64, n: int) -> Seq<Seq<char>>
    decreases n,
{
    if n <= 0 { seq![] } else { display_lines(h, now, n - 1).push(display_line(n - 1, h[n - 1], now)) }
}

/// One section of the exported history.
pub open spec fn export_section(i: int, e: HistoryEntry, now: u64) -> Seq<char> {
    "## "@ + decimal((i + 1) as nat) + " — ["@ + time_label(e.timestamp, now) + "]\n"@ + e.text@ + "\n"@
}

pub open spec fn export_sections(h: Seq<HistoryEntry>, now: u64, n: int) -> Seq<Seq<char>>
    decreases n,
{
    if n <= 0 { seq![] } else { export_sections(h, now, n - 1).push(export_section(n - 1, h[n - 1], now)) }
}

/// The sum of the byte lengths of the texts of the first `n` entries.
pub open spec fn total_bytes(h: Seq<HistoryEntry>, n: int) -> nat
    decreases n,
{
    if n <= 0 || n > h.len() { 0 } else { total_bytes(h, n - 1) + byte_len(h[n - 1].text@) }
}

/// The entries whose lowercased text contains the lowercased query.
pub open spec fn matching(h: Seq<HistoryEntry>, q: Seq<char>) -> Seq<HistoryEntry> {
    h.filter(|e: HistoryEntry| contains(lowercase(e.text@), lowercase(q)))
}

fn shorten(t: &String) -> (r: String)
    ensures r@ == shown_text(t@),
{
    let v = chars_of(t.as_str());
    if v.len() > 120 {
        let mut r = string_of(&v.as_slice()[0..117]);
        proof { assert(v@.subrange(0, 117) == t@.take(117)); }
        push_str(&mut r, "...");
        r
    } else {
        t.clone()
    }
}

/// The line of the history list for entry `i`.
fn line_for(i: usize, e: &HistoryEntry, now: u64) -> (r: String)
    requires i < usize::MAX,
    ensures r@ == display_line(i as int, *e, now),
{
    let mut r = String::new();
    push_decimal(&mut r, (i + 1) as u64);
    push_str(&mut r, ". [");
    push_str(&mut r, format_timestamp_at(e.timestamp, now).as_str());
    push_str(&mut r, "]  ");
    push_str(&mut r, shorten(&e.text).as_str());
    proof { reveal_strlit(""); }
    r
}

impl History {
    pub fn new() -> (h: Self)
        ensures h@.len() == 0,
    {
        History { entries: VecDeque::new() }
    }

    /// Adds an entry in front; beyond `max` entries (at least one is kept)
    /// the oldest are dropped.
    pub fn push_entry(&mut self, e: HistoryEntry, max: usize)
        ensures final(self)@ == pushed(old(self)@, e, max),
    {
        self.entries.push_front(e);
        let keep: usize = if max < 1 { 1 } else { max };
        while self.entries.len() > keep
            invariant
                keep == kept_count(max),
                self.entries@.len() >= 1,
                ({
                    let all = seq![e] + old(self)@;
                    &&& all.len() >= self.entries@.len()
                    &&& (self.entries@.len() == all.len() || self.entries@.len() >= keep)
                    &&& self.entries@ == all.take(self.entries@.len() as int)
                }),
            decreases self.entries@.len(),
        {
            self.entries.pop_back();
        }
        proof {
            let all = seq![e] + old(self)@;
            if all.len() <= kept_count(max) {
                assert(all.take(all.len() as int) == all);
            }
        }
    }

    /// Adds a transcription stamped with the current time, keeping at most
    /// `max` entries (at least one).
    pub fn push_with_limit(&mut self, text: String, max: usize)
        ensures
            exists|ts: u64| final(self)@ == pushed(old(self)@, HistoryEntry { text, timestamp: ts }, max),
    {
        let timestamp = unix_now_secs();
        self.push_entry(HistoryEntry { text, timestamp }, max);
    }

    /// Adds a transcription, keeping the ten most recent.
    pub fn push(&mut self, text: String)
        ensures
            exists|ts: u64| final(self)@ == pushed(old(self)@, HistoryEntry { text, timestamp: ts }, 10),
    {
        self.push_with_limit(text, 10);
    }

    pub fn entries(&self) -> (v: &VecDeque<HistoryEntry>)
        ensures v@ == self@,
    {
        &self.entries
    }

    pub fn len(&self) -> (n: usize)
        ensures n == self@.len(),
    {
        self.entries.len()
    }

    pub fn is_empty(&self) -> (b: bool)
        ensures b == (self@.len() == 0),
    {
        self.entries.len() == 0
    }

    /// The text of the most recent entry.
    pub fn last_text(&self) -> (r: Option<String>)
        ensures
            match r {
                Some(t) => self@.len() > 0 && t@ == self@[0].text@,
                None => self@.len() == 0,
            },
    {
        if self.entries.len() == 0 { None } else { Some(self.entries[0].text.clone()) }
    }

    /// The timestamp of the most recent entry.
    pub fn last_timestamp(&self) -> (r: Option<u64>)
        ensures
            match r {
                Some(t) => self@.len() > 0 && t == self@[0].timestamp,
                None => self@.len() == 0,
            },
    {
        if self.entries.len() == 0 { None } else { Some(self.entries[0].timestamp) }
    }

    /// The entry at `idx` (0 is the most recent).
    pub fn get_by_index(&self, idx: usize) -> (r: Option<&HistoryEntry>)
        ensures
            match r {
                Some(e) => idx < self@.len() && *e == self@[idx as int],
                None => idx >= self@.len(),
            },
    {
        if idx < self.entries.len() { Some(&self.entries[idx]) } else { None }
    }

    /// The texts, most recent first.
    pub fn all_texts(&self) -> (v: Vec<String>)
        ensures
            v@.len() == self@.len(),
            forall|i: int| 0 <= i < v@.len() ==> (#[trigger] v@[i])@ == self@[i].text@,
    {
        let mut v: Vec<String> = Vec::new();
        let mut i: usize = 0;
        while i < self.entries.len()
            invariant
                i <= self.entries@.len(),
                v@.len() == i,
                forall|k: int| 0 <= k < i ==> (#[trigger] v@[k])@ == self.entries@[k].text@,
            decreases self.entries@.len() - i,
        {
            v.push(self.entries[i].text.clone());
            i += 1;
        }
        v
    }

    /// The total length of the texts, in bytes.
    pub fn total_chars(&self) -> (n: usize)
        requires total_bytes(self@, self@.len() as int) <= usize::MAX,
        ensures n == total_bytes(self@, self@.len() as int),
    {
        let mut n: usize = 0;
        let mut i: usize = 0;
        while i < self.entries.len()
            invariant
                i <= self.entries@.len(),
                n == total_bytes(self.entries@, i as int),
                total_bytes(self.entries@, self.entries@.len() as int) <= usize::MAX,
            decreases self.entries@.len() - i,
        {
            proof { lemma_total_bytes_grows(self.entries@, i as int + 1, self.entries@.len() as int); }
            n = n + self.entries[i].text.as_str().as_bytes().len();
            i += 1;
        }
        n
    }

    /// The mean length of the texts in bytes, 0 without entries.
    pub fn average_length(&self) -> (n: usize)
        requires total_bytes(self@, self@.len() as int) <= usize::MAX,
        ensures n == if self@.len() == 0 { 0 } else { total_bytes(self@, self@.len() as int) / self@.len() },
    {
        if self.entries.len() == 0 {
            return 0;
        }
        self.total_chars() / self.entries.len()
    }

    /// The entries whose text contains the query, letter case aside.
    pub fn search(&self, query: &str) -> (v: Vec<&HistoryEntry>)
        ensures
            v@.len() == matching(self@, query@).len(),
            forall|i: int| 0 <= i < v@.len() ==> *(#[trigger] v@[i]) == matching(self@, query@)[i],
    {
        let q = to_lowercase(query);
        let ghost pred = |e: HistoryEntry| contains(lowercase(e.text@), lowercase(query@));
        let mut v: Vec<&HistoryEntry> = Vec::new();
        let mut i: usize = 0;
        while i < self.entries.len()
            invariant
                i <= self.entries@.len(),
                q@ == lowercase(query@),
                pred == (|e: HistoryEntry| contains(lowercase(e.text@), lowercase(query@))),
                v@.len() == self.entries@.take(i as int).filter(pred).len(),
                forall|k: int| 0 <= k < v@.len() ==> *(#[trigger] v@[k]) == self.entries@.take(i as int).filter(pred)[k],
            decreases self.entries@.len() - i,
        {
            proof {
                reveal_with_fuel(Seq::filter, 1);
                let t = self.entries@.take(i as int + 1);
                assert(t.drop_last() == self.entries@.take(i as int));
                assert(t.last() == self.entries@[i as int]);
            }
            let low = to_lowercase(self.entries[i].text.as_str());
            if contains_str(low.as_str(), q.as_str()) {
                v.push(&self.entries[i]);
            }
            i += 1;
        }
        assert(self.entries@.take(self.entries@.len() as int) == self.entries@);
        v
    }

    pub fn clear(&mut self)
        ensures final(self)@.len() == 0,
    {
        self.entries = VecDeque::new();
    }

    /// The numbered list of entries with their times against `now`, or
    /// "Aucun historique." when there are none.
    pub fn as_display_string_at(&self, now: u64) -> (r: String)
        ensures
            r@ == if self@.len() == 0 {
                "Aucun historique."@
            } else {
                crate::text::join(display_lines(self@, now, self@.len() as int), "\n"@)
            },
    {
        if self.entries.len() == 0 {
            return owned("Aucun historique.");
        }
        let mut r = String::new();
        let mut i: usize = 0;
        while i < self.entries.len()
            invariant
                i <= self.entries@.len(),
                r@ == crate::text::join(display_lines(self.entries@, now, i as int), "\n"@),
            decreases self.entries@.len() - i,
        {
            proof {
                crate::text::lemma_join_push(display_lines(self.entries@, now, i as int), "\n"@,
                    display_line(i as int, self.entries@[i as int], now));
                lemma_display_lines_len(self.entries@, now, i as int);
            }
            if i > 0 {
                push_str(&mut r, "\n");
            }
            let line = line_for(i, &self.entries[i], now);
            push_str(&mut r, line.as_str());
            i += 1;
        }
        r
    }

    /// The numbered list of entries, with times against the current clock.
    pub fn as_display_string(&self) -> (r: String)
        ensures
            exists|now: u64| r@ == if self@.len() == 0 {
                "Aucun historique."@
            } else {
                crate::text::join(display_lines(self@, now, self@.len() as int), "\n"@)
            },
    {
        self.as_display_string_at(unix_now_secs())
    }

    /// The Markdown export of the history, with times against `now`.
    pub fn export_text_at(&self, now: u64) -> (r: String)
        ensures
            r@ == "# Historique Dictum — "@ + decimal(self@.len() as nat) + " entrée(s)\n\n"@
                + crate::text::join(export_sections(self@, now, self@.len() as int), "\n"@),
    {
        let mut body = String::new();
        let mut i: usize = 0;
        while i < self.entries.len()
            invariant
                i <= self.entries@.len(),
                body@ == crate::text::join(export_sections(self.entries@, now, i as int), "\n"@),
            decreases self.entries@.len() - i,
        {
            proof {
                crate::text::lemma_join_push(export_sections(self.entries@, now, i as int), "\n"@,
                    export_section(i as int, self.entries@[i as int], now));
                lemma_export_sections_len(self.entries@, now, i as int);
            }
            if i > 0 {
                push_str(&mut body, "\n");
            }
            let e = &self.entries[i];
            push_str(&mut body, "## ");
            push_decimal(&mut body, (i + 1) as u64);
            push_str(&mut body, " — [");
            push_str(&mut body, format_timestamp_at(e.timestamp, now).as_str());
            push_str(&mut body, "]\n");
            push_str(&mut body, e.text.as_str());
            push_str(&mut body, "\n");
            i += 1;
        }
        let mut r = owned("# Historique Dictum — ");
        push_decimal(&mut r, self.entries.len() as u64);
        push_str(&mut r, " entrée(s)\n\n");
        push_str(&mut r, body.as_str());
        r
    }
}

proof fn lemma_display_lines_len(h: Seq<HistoryEntry>, now: u64, n: int)
    requires n >= 0,
    ensures
        display_lines(h, now, n).len() == n,
        display_lines(h, now, n + 1) == display_lines(h, now, n).push(display_line(n, h[n], now)),
    decreases n,
{
    if n > 0 {
        lemma_display_lines_len(h, now, n - 1);
    }
}

proof fn lemma_export_sections_len(h: Seq<HistoryEntry>, now: u64, n: int)
    requires n >= 0,
    ensures
        export_sections(h, now, n).len() == n,
        export_sections(h, now, n + 1) == export_sections(h, now, n).push(export_section(n, h[n], now)),
    decreases n,
{
    if n > 0 {
        lemma_export_sections_len(h, now, n - 1);
    }
}

proof fn lemma_total_bytes_grows(h: Seq<HistoryEntry>, i: int, j: int)
    requires 0 <= i <= j <= h.len(),
    ensures total_bytes(h, i) <= total_bytes(h, j),
    decreases j - i,
{
    if i < j {
        lemma_total_bytes_grows(h, i, j - 1);
    }
}

/// After a push the newest entry comes first, the previous ones follow in
/// their order, and the history holds at most the limit (at least one).
pub proof fn lemma_push_newest_first(h: Seq<HistoryEntry>, e: HistoryEntry, max: usize)
    ensures
        pushed(h, e, max)[0] == e,
        pushed(h, e, max).len() == if h.len() + 1 > kept_count(max) { kept_count(max) } else { h.len() + 1 },
        forall|i: int| 1 <= i < pushed(h, e, max).len() ==> #[trigger] pushed(h, e, max)[i] == h[i - 1],
{
}

/// The history after pushing each entry of `es` in turn, the first one first.
pub open spec fn pushed_all(h: Seq<HistoryEntry>, es: Seq<HistoryEntry>, max: usize) -> Seq<HistoryEntry>
    decreases es.len(),
{
    if es.len() == 0 { h } else { pushed(pushed_all(h, es.drop_last(), max), es.last(), max) }
}

/// Pushing entries one after the other into an empty history keeps the
/// `kept_count(max)` most recent of them (all of them when there are fewer),
/// newest first.
pub proof fn lemma_pushes_keep_most_recent(es: Seq<HistoryEntry>, max: usize)
    ensures
        pushed_all(seq![], es, max).len() == if es.len() > kept_count(max) { kept_count(max) } else { es.len() },
        forall|i: int| 0 <= i < pushed_all(seq![], es, max).len()
            ==> #[trigger] pushed_all(seq![], es, max)[i] == es[es.len() - 1 - i],
    decreases es.len(),
{
    if es.len() > 0 {
        let prev = pushed_all(seq![], es.drop_last(), max);
        lemma_pushes_keep_most_recent(es.drop_last(), max);
        lemma_push_newest_first(prev, es.last(), max);
        let now = pushed_all(seq![], es, max);
        assert(now == pushed(prev, es.last(), max));
        assert forall|i: int| 0 <= i < now.len() implies #[trigger] now[i] == es[es.len() - 1 - i] by {
            if i > 0 {
                assert(now[i] == prev[i - 1]);
                assert(es.drop_last()[es.drop_last().len() - 1 - (i - 1)] == es[es.len() - 1 - i]);
            }
        }
    }
}

/// What `push` promises over many calls: pushing the entries `es` one after
/// the other into an empty history (as `push` does, ten kept) leaves
/// min(n, 10) of them, the most recent first.
pub proof fn lemma_ten_most_recent(es: Seq<HistoryEntry>)
    ensures
        pushed_all(seq![], es, 10).len() == if es.len() > 10 { 10 } else { es.len() },
        forall|i: int| 0 <= i < pushed_all(seq![], es, 10).len()
            ==> (#[trigger] pushed_all(seq![], es, 10)[i]).text@ == es[es.len() - 1 - i].text@,
{
    lemma_pushes_keep_most_recent(es, 10);
}

} // verus!
