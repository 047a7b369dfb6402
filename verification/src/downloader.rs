//! Model and binary downloads: the manifest, resuming, the checksum, and
//! reading what nvidia-smi reports.
use vstd::prelude::*;
use sha2::Digest;
use crate::config::Config;
use crate::text::{
    chars_of, contains, contains_str, decimal, owned, parse_unsigned, parse_unsigned_chars,
    push_char, push_decimal, push_str, string_of, trim, trim_bounds, u64_to_decimal,
};

verus! {

broadcast use vstd::seq_lib::group_seq_properties;

/// A Whisper model offered by the manifest.
pub struct ModelEntry {
    pub url: String,
    pub size_bytes: u64,
    /// Lowercase hexadecimal SHA-256 of the file; empty: not checked.
    pub sha256: String,
    pub description: String,
}

/// A program file (whisper-cli and its libraries) offered by the manifest.
pub struct BinaryEntry {
    pub url: String,
    pub size_bytes: u64,
    pub sha256: String,
}

/// The download manifest: models and program files by name, each name once.
pub struct Manifest {
    pub version: String,
    pub models: Vec<(String, ModelEntry)>,
    pub binaries: Vec<(String, BinaryEntry)>,
}

/// No name occurs twice among the pairs.
pub open spec fn names_distinct<T>(v: Seq<(String, T)>) -> bool {
    forall|i: int, j: int| 0 <= i < j < v.len() ==> (#[trigger] v[i]).0@ != (#[trigger] v[j]).0@
}

impl Manifest {
    /// Each model and each program file is listed under one name only.
    pub open spec fn wf(&self) -> bool {
        names_distinct(self.models@) && names_distinct(self.binaries@)
    }

    /// The model listed under `name`.
    pub fn model(&self, name: &str) -> (r: Option<&ModelEntry>)
        requires self.wf(),
        ensures
            match r {
                Some(e) => exists|i: int| 0 <= i < self.models@.len() && (#[trigger] self.models@[i]).0@ == name@
                    && self.models@[i].1 == *e,
                None => forall|i: int| 0 <= i < self.models@.len() ==> (#[trigger] self.models@[i]).0@ != name@,
            },
    {
        let mut i: usize = 0;
        while i < self.models.len()
            invariant
                i <= self.models@.len(),
                forall|k: int| 0 <= k < i ==> (#[trigger] self.models@[k]).0@ != name@,
            decreases self.models@.len() - i,
        {
            if crate::text::str_eq(self.models[i].0.as_str(), name) {
                return Some(&self.models[i].1);
            }
            i += 1;
        }
        None
    }
}

/// The User-Agent of every request: "Dictum/<version> (Windows)".
pub fn user_agent() -> (r: String)
    ensures r@ == "Dictum/"@ + "1.0.0"@ + " (Windows)"@,
{
    let mut r = owned("Dictum/");
    push_str(&mut r, Config::app_version());
    push_str(&mut r, " (Windows)");
    r
}

/// How a download starts, given the bytes already on disk.
#[derive(Debug, Clone, Copy, PartialEq, Eq, Structural)]
pub enum DownloadStart {
    /// The file is already complete: nothing to fetch.
    Complete,
    /// From the first byte.
    Fresh,
    /// From this byte on (an HTTP Range request).
    Resume(u64),
}

/// The start of a download of `size_bytes` bytes (0: size unknown) when
/// `existing` bytes are already on disk (0 when there is no file).
pub fn download_start(size_bytes: u64, existing: u64) -> (r: DownloadStart)
    ensures
        r == if size_bytes > 0 && existing >= size_bytes {
            DownloadStart::Complete
        } else if existing > 0 {
            DownloadStart::Resume(existing)
        } else {
            DownloadStart::Fresh
        },
{
    if size_bytes > 0 && existing >= size_bytes {
        DownloadStart::Complete
    } else if existing > 0 {
        DownloadStart::Resume(existing)
    } else {
        DownloadStart::Fresh
    }
}

/// The Range header value that resumes at byte `from`.
pub fn range_header(from: u64) -> (r: String)
    ensures r@ == "bytes="@ + decimal(from as nat) + "-"@,
{
    let mut r = owned("bytes=");
    push_decimal(&mut r, from);
    push_str(&mut r, "-");
    r
}

/// A response the download goes on with: a success status, or 206.
pub fn status_accepted(code: u16) -> (r: bool)
    ensures r == ((200 <= code && code < 300) || code == 206),
{
    (200 <= code && code < 300) || code == 206
}

/// A model entry for one file to fetch.
pub fn download_file(url: &str, sha256: &str, size_bytes: u64) -> (e: ModelEntry)
    ensures
        e.url@ == url@,
        e.sha256@ == sha256@,
        e.size_bytes == size_bytes,
        e.description@ == Seq::<char>::empty(),
{
    ModelEntry { url: owned(url), sha256: owned(sha256), size_bytes, description: String::new() }
}

/// One program file to fetch: its name and where from.
pub struct BinaryJob {
    pub name: String,
    pub entry: ModelEntry,
}

/// The program files to fetch, in the manifest's order: those not yet on
/// disk (`present[i]` says whether file `i` is there).
pub fn download_all_binaries(manifest: &Manifest, present: &Vec<bool>) -> (jobs: Vec<BinaryJob>)
    requires present@.len() == manifest.binaries@.len(),
    ensures
        jobs@.len() == present@.filter(|p: bool| !p).len(),
        forall|k: int| 0 <= k < jobs@.len() ==> {
            let b = manifest.binaries@[missing_index(present@, k)];
            &&& (#[trigger] jobs@[k]).name@ == b.0@
            &&& jobs@[k].entry.url@ == b.1.url@
            &&& jobs@[k].entry.sha256@ == b.1.sha256@
            &&& jobs@[k].entry.size_bytes == b.1.size_bytes
        },
{
    let mut jobs: Vec<BinaryJob> = Vec::new();
    let mut i: usize = 0;
    while i < manifest.binaries.len()
        invariant
            i <= manifest.binaries@.len(),
            present@.len() == manifest.binaries@.len(),
            jobs@.len() == present@.take(i as int).filter(|p: bool| !p).len(),
            forall|k: int| 0 <= k < jobs@.len() ==> {
                let b = manifest.binaries@[missing_index(present@, k)];
                &&& (#[trigger] jobs@[k]).name@ == b.0@
                &&& jobs@[k].entry.url@ == b.1.url@
                &&& jobs@[k].entry.sha256@ == b.1.sha256@
                &&& jobs@[k].entry.size_bytes == b.1.size_bytes
            },
        decreases manifest.binaries@.len() - i,
    {
        proof { lemma_missing_step(present@, i as int); }
        if !present[i] {
            let (name, b) = (&manifest.binaries[i].0, &manifest.binaries[i].1);
            let entry = download_file(b.url.as_str(), b.sha256.as_str(), b.size_bytes);
            jobs.push(BinaryJob { name: name.clone(), entry });
        }
        i += 1;
    }
    assert(present@.take(present@.len() as int) == present@);
    jobs
}

/// The index of the `k`-th `false` in `present`.
pub open spec fn missing_index(present: Seq<bool>, k: int) -> int
    decreases present.len(),
{
    if present.len() == 0 {
        0
    } else if !present.last() && present.drop_last().filter(|p: bool| !p).len() == k {
        present.len() - 1
    } else {
        missing_index(present.drop_last(), k)
    }
}

proof fn lemma_missing_step(present: Seq<bool>, i: int)
    requires 0 <= i < present.len(),
    ensures
        present.take(i + 1).filter(|p: bool| !p).len()
            == present.take(i).filter(|p: bool| !p).len() + if present[i] { 0int } else { 1int },
        !present[i] ==> missing_index(present, present.take(i).filter(|p: bool| !p).len() as int) == i,
        forall|k: int| 0 <= k < present.take(i).filter(|p: bool| !p).len()
            ==> #[trigger] missing_index(present, k) == missing_index(present.take(i), k),
{
    reveal_with_fuel(Seq::filter, 1);
    let t = present.take(i + 1);
    assert(t.drop_last() == present.take(i));
    assert(t.last() == present[i]);
    lemma_missing_prefix(present, i + 1);
    if !present[i] {
        assert(missing_index(t, present.take(i).filter(|p: bool| !p).len() as int) == i);
    }
    assert forall|k: int| 0 <= k < present.take(i).filter(|p: bool| !p).len()
        implies #[trigger] missing_index(present, k) == missing_index(present.take(i), k) by {
        lemma_missing_below(t, k);
    }
}

/// The index of a `false` found among the first `n` entries depends only on them.
proof fn lemma_missing_prefix(present: Seq<bool>, n: int)
    requires 0 <= n <= present.len(),
    ensures
        forall|k: int| 0 <= k < present.take(n).filter(|p: bool| !p).len()
            ==> #[trigger] missing_index(present, k) == missing_index(present.take(n), k),
    decreases present.len() - n,
{
    reveal_with_fuel(Seq::filter, 1);
    if n < present.len() {
        lemma_missing_prefix(present, n + 1);
        let t = present.take(n + 1);
        assert(t.drop_last() == present.take(n));
        assert forall|k: int| 0 <= k < present.take(n).filter(|p: bool| !p).len()
            implies #[trigger] missing_index(present, k) == missing_index(present.take(n), k) by {
            lemma_missing_below(t, k);
        }
    } else {
        assert(present.take(n) == present);
    }
}

/// Below the count of `false` before the last entry, the last entry does not matter.
proof fn lemma_missing_below(s: Seq<bool>, k: int)
    requires s.len() > 0, 0 <= k < s.drop_last().filter(|p: bool| !p).len(),
    ensures missing_index(s, k) == missing_index(s.drop_last(), k),
{
}

// ---------------------------------------------------------------------------
// The checksum
// ---------------------------------------------------------------------------

/// The lowercase hexadecimal digit of a value below 16.
pub open spec fn hex_digit(d: int) -> char {
    if d < 10 { ((d + 48) as u32) as char } else { ((d - 10 + 97) as u32) as char }
}

/// Bytes as lowercase hexadecimal, two digits per byte, high digit first.
pub open spec fn hex_lower(b: Seq<u8>) -> Seq<char>
    decreases b.len(),
{
    if b.len() == 0 {
        seq![]
    } else {
        hex_lower(b.drop_last()) + seq![hex_digit((b.last() / 16) as int), hex_digit((b.last() % 16) as int)]
    }
}

/// `hex::encode`: each byte as two lowercase hexadecimal digits, the high
/// one first (the crate's `HEX_CHARS_LOWER` table).
#[verifier::external_body]
fn hex_encode(bytes: &[u8]) -> (r: String)
    ensures r@ == hex_lower(bytes@),
{
    hex::encode(bytes)
}

/// What SHA-256 gives for a byte string.
pub uninterp spec fn sha256(data: Seq<u8>) -> Seq<u8>;

/// A SHA-256 hasher (`sha2::Sha256`), held opaque: Verus does not take a
/// declaration of that type, which is an alias of nested generic wrappers.
#[verifier::external_body]
pub struct Sha256State {
    inner: sha2::Sha256,
}

/// The bytes a hasher has been fed since it was made.
pub uninterp spec fn fed(h: Sha256State) -> Seq<u8>;

/// `Sha256::new`: a hasher fed nothing yet.
#[verifier::external_body]
fn sha256_new() -> (h: Sha256State)
    ensures fed(h) == Seq::<u8>::empty(),
{
    Sha256State { inner: sha2::Sha256::new() }
}

/// `Digest::update`: the chunk is appended to what the hasher was fed.
#[verifier::external_body]
fn sha256_update(h: &mut Sha256State, chunk: &[u8])
    ensures fed(*final(h)) == fed(*old(h)) + chunk@,
{
    h.inner.update(chunk)
}

/// `Digest::finalize`: the SHA-256 of everything the hasher was fed.
#[verifier::external_body]
fn sha256_finalize(h: Sha256State) -> (d: Vec<u8>)
    ensures d@ == sha256(fed(h)),
{
    h.inner.finalize().to_vec()
}

/// What fetching the program files does next: fetch job `i`, stop because
/// all are done, or stop on the error of a failed download.
pub enum BinaryStep {
    Fetch(usize),
    Done,
    Failed(String),
}

/// The first step for `count` jobs: the first one, or done when there is none.
pub fn first_binary_step(count: usize) -> (s: BinaryStep)
    ensures
        count == 0 ==> s is Done,
        count > 0 ==> (s matches BinaryStep::Fetch(i) && i == 0),
{
    if count == 0 { BinaryStep::Done } else { BinaryStep::Fetch(0) }
}

/// The step after job `current` of `count` ended with `result`: a failure
/// stops everything with its error (no later file is tried); a success goes
/// on to the next job, or ends when it was the last.
pub fn next_binary_step(count: usize, current: usize, result: Result<(), String>) -> (s: BinaryStep)
    requires current < count,
    ensures
        match job_after(count as nat, current as nat, result is Ok) {
            Some(j) => s matches BinaryStep::Fetch(i) && i == j,
            None => !(s is Fetch),
        },
        match result {
            Ok(()) => if current + 1 < count {
                s matches BinaryStep::Fetch(i) && i == current + 1
            } else {
                s is Done
            },
            Err(m) => s matches BinaryStep::Failed(f) && f@ == m@,
        },
{
    match result {
        Ok(()) => if current + 1 < count { BinaryStep::Fetch(current + 1) } else { BinaryStep::Done },
        Err(m) => BinaryStep::Failed(m),
    }
}

/// The job fetched after job `current` of `count` ended (`ok` for a
/// success): the next one after a success, none after the last job or
/// after a failure.
pub open spec fn job_after(count: nat, current: nat, ok: bool) -> Option<nat> {
    if ok && current + 1 < count { Some(current + 1) } else { None }
}

/// The jobs fetched from job `i` on, following `job_after`, when job `k`
/// ends as `oks[k]` says.
pub open spec fn fetched_jobs(count: nat, oks: Seq<bool>, i: nat) -> Seq<nat>
    decreases count - i,
{
    if i >= count || i >= oks.len() {
        seq![]
    } else {
        seq![i] + match job_after(count, i, oks[i as int]) {
            Some(j) => if j > i { fetched_jobs(count, oks, j) } else { seq![] },
            None => seq![],
        }
    }
}

proof fn lemma_fetched_from(count: nat, oks: Seq<bool>, i: nat)
    requires oks.len() == count, i < count,
    ensures
        fetched_jobs(count, oks, i).len() >= 1,
        forall|k: int| 0 <= k < fetched_jobs(count, oks, i).len() ==> #[trigger] fetched_jobs(count, oks, i)[k] == i + k,
        forall|k: int| 0 <= k < fetched_jobs(count, oks, i).len() - 1 ==> oks[#[trigger] fetched_jobs(count, oks, i)[k] as int],
        i + fetched_jobs(count, oks, i).len() == count || !oks[i + fetched_jobs(count, oks, i).len() - 1],
        i + fetched_jobs(count, oks, i).len() <= count,
    decreases count - i,
{
    let f = fetched_jobs(count, oks, i);
    if oks[i as int] && i + 1 < count {
        lemma_fetched_from(count, oks, i + 1);
        let g = fetched_jobs(count, oks, i + 1);
        assert(f == seq![i] + g);
        assert forall|k: int| 0 <= k < f.len() implies #[trigger] f[k] == i + k by {
            if k > 0 { assert(f[k] == g[k - 1]); }
        }
        assert forall|k: int| 0 <= k < f.len() - 1 implies oks[#[trigger] f[k] as int] by {
            if k > 0 { assert(f[k] == g[k - 1]); } else { assert(f[0] == i); }
        }
    } else {
        assert(f == seq![i]);
    }
}

/// The program files are fetched in order, and fetching stops at the first
/// failure: the jobs tried are 0, 1, ..., every one before the last tried
/// succeeded, and either all were tried or the last one tried failed. With
/// no job nothing is tried.
pub proof fn lemma_binaries_stop_at_first_failure(count: nat, oks: Seq<bool>)
    requires oks.len() == count,
    ensures
        forall|k: int| 0 <= k < fetched_jobs(count, oks, 0).len() ==> #[trigger] fetched_jobs(count, oks, 0)[k] == k,
        forall|k: int| 0 <= k < fetched_jobs(count, oks, 0).len() - 1 ==> oks[#[trigger] fetched_jobs(count, oks, 0)[k] as int],
        fetched_jobs(count, oks, 0).len() == count || !oks[fetched_jobs(count, oks, 0).len() - 1],
        count == 0 ==> fetched_jobs(count, oks, 0).len() == 0,
{
    if count > 0 {
        lemma_fetched_from(count, oks, 0);
    }
}

/// A download under way: the bytes of the file so far (the part already on
/// disk, fed first when a download resumes, then the bytes received) and
/// their running SHA-256.
pub struct DownloadSink {
    hasher: Sha256State,
    downloaded: u64,
    content: Ghost<Seq<u8>>,
}

/// A checksum that does not match: what was expected and what came.
pub struct ChecksumMismatch {
    pub expected: String,
    pub actual: String,
}

impl DownloadSink {
    pub closed spec fn wf(&self) -> bool {
        &&& fed(self.hasher) == self.content@
        &&& self.downloaded as nat == self.content@.len()
    }

    /// The bytes of the file so far, in order.
    pub closed spec fn content(&self) -> Seq<u8> {
        self.content@
    }

    /// The size of the file so far.
    pub closed spec fn size(&self) -> u64 {
        self.downloaded
    }

    /// A download of an empty file. To resume one, feed the part already on
    /// disk first, then what the server sends.
    pub fn new() -> (s: Self)
        ensures s.wf(), s.content() == Seq::<u8>::empty(), s.size() == 0,
    {
        DownloadSink { hasher: sha256_new(), downloaded: 0, content: Ghost(Seq::empty()) }
    }

    pub fn downloaded(&self) -> (n: u64)
        ensures n == self.size(),
    {
        self.downloaded
    }

    /// Takes the next bytes of the file: from the part already on disk, or
    /// a chunk just received and written.
    pub fn feed(&mut self, chunk: &[u8])
        requires old(self).wf(), old(self).size() + chunk@.len() <= u64::MAX,
        ensures
            final(self).wf(),
            final(self).content() == old(self).content() + chunk@,
            final(self).size() == old(self).size() + chunk@.len(),
    {
        sha256_update(&mut self.hasher, chunk);
        self.downloaded = self.downloaded + chunk.len() as u64;
        self.content = Ghost(self.content@ + chunk@);
    }

    /// Ends the download: fine when no checksum is expected or when the
    /// SHA-256 of the whole file, in lowercase hexadecimal, is the one
    /// expected.
    pub fn finish(self, expected_sha256: &str) -> (r: Result<(), ChecksumMismatch>)
        requires self.wf(),
        ensures
            match r {
                Ok(()) => expected_sha256@.len() == 0 || hex_lower(sha256(self.content())) == expected_sha256@,
                Err(m) => expected_sha256@.len() != 0 && m.expected@ == expected_sha256@
                    && m.actual@ == hex_lower(sha256(self.content())) && m.actual@ != expected_sha256@,
            },
    {
        let digest = sha256_finalize(self.hasher);
        let actual = hex_encode(digest.as_slice());
        if expected_sha256.is_empty() {
            return Ok(());
        }
        if crate::text::str_eq(actual.as_str(), expected_sha256) {
            Ok(())
        } else {
            Err(ChecksumMismatch { expected: owned(expected_sha256), actual })
        }
    }
}

// ---------------------------------------------------------------------------
// GPU detection
// ---------------------------------------------------------------------------

/// A graphics card as nvidia-smi describes it.
pub struct NvidiaInfo {
    pub name: String,
    pub vram_mb: u32,
    /// Recent and large enough for the large Whisper model.
    pub capable: bool,
}

/// A card family known to run Whisper well.
pub open spec fn modern_gpu(name: Seq<char>) -> bool {
    contains(name, "RTX"@) || contains(name, "GTX 16"@) || contains(name, "GTX 10"@)
        || contains(name, "A100"@) || contains(name, "A4000"@) || contains(name, "A5000"@)
        || contains(name, "A6000"@) || contains(name, "Tesla"@)
}

/// The index of the first `c` in `s`, if any.
pub open spec fn first_index(s: Seq<char>, c: char) -> Option<int> {
    if exists|i: int| 0 <= i < s.len() && s[i] == c {
        Some(choose|i: int| 0 <= i < s.len() && s[i] == c && forall|j: int| 0 <= j < i ==> s[j] != c)
    } else {
        None
    }
}

/// What nvidia-smi's "name, memory" output says of the card: the first line
/// cut at its first comma; the name and the memory in MB are the trimmed
/// parts (memory 0 when it does not parse); none without a comma.
pub open spec fn gpu_of(output: Seq<char>) -> Option<(Seq<char>, nat)> {
    let line = crate::text::split(output, '\n')[0];
    match first_index(line, ',') {
        None => None,
        Some(i) => {
            let name = trim(line.take(i));
            let vram = match parse_unsigned(trim(line.skip(i + 1)), u32::MAX as nat) {
                Some(n) => n,
                None => 0,
            };
            Some((name, vram))
        },
    }
}

/// Reads the card from nvidia-smi's output (`--query-gpu=name,memory.total
/// --format=csv,noheader,nounits`); it is capable when its family is modern
/// and it has at least 4096 MB.
pub fn parse_nvidia_smi(output: &str) -> (r: Option<NvidiaInfo>)
    ensures
        match r {
            None => gpu_of(output@) is None,
            Some(info) => gpu_of(output@) == Some((info.name@, info.vram_mb as nat))
                && info.capable == (modern_gpu(info.name@) && info.vram_mb >= 4096),
        },
{
    let v = chars_of(output);
    let pieces = crate::text::split_chars(v.as_slice(), '\n');
    proof { crate::text::lemma_split_nonempty(v@, '\n'); }
    let line = &pieces[0];
    let ghost l = line@;
    let mut i: usize = 0;
    while i < line.len() && line[i] != ','
        invariant
            i <= l.len(),
            l == line@,
            forall|j: int| 0 <= j < i ==> l[j] != ',',
        decreases l.len() - i,
    {
        i += 1;
    }
    if i == line.len() {
        return None;
    }
    assert(first_index(l, ',') == Some(i as int)) by {
        let w = choose|k: int| 0 <= k < l.len() && l[k] == ',' && forall|j: int| 0 <= j < k ==> l[j] != ',';
        assert(0 <= i < l.len() && l[i as int] == ',');
    }
    let head = vstd::slice::slice_subrange(line.as_slice(), 0, i);
    let (a, b) = trim_bounds(head);
    let name = string_of(vstd::slice::slice_subrange(head, a, b));
    let tail = vstd::slice::slice_subrange(line.as_slice(), i + 1, line.len());
    let (c, d) = trim_bounds(tail);
    let num = vstd::slice::slice_subrange(tail, c, d);
    assert(head@ == l.take(i as int));
    assert(tail@ == l.skip(i + 1));
    let vram: u32 = match parse_unsigned_chars(num, 0xffff_ffff) {
        Some(n) => n as u32,
        None => 0,
    };
    let modern = contains_str(name.as_str(), "RTX") || contains_str(name.as_str(), "GTX 16")
        || contains_str(name.as_str(), "GTX 10") || contains_str(name.as_str(), "A100")
        || contains_str(name.as_str(), "A4000") || contains_str(name.as_str(), "A5000")
        || contains_str(name.as_str(), "A6000") || contains_str(name.as_str(), "Tesla");
    Some(NvidiaInfo { name, vram_mb: vram, capable: modern && vram >= 4096 })
}

/// The card families known to run Whisper well.
pub open spec fn gpu_families() -> Seq<Seq<char>> {
    seq!["RTX"@, "GTX 16"@, "GTX 10"@, "A100"@, "A4000"@, "A5000"@, "A6000"@, "Tesla"@]
}

/// A card is modern exactly when its name contains the name of one of the
/// known families (so a "GeForce GTX 1660 Ti" is, like any RTX card); with
/// at least 4096 MB of video memory, `parse_nvidia_smi` marks it capable.
pub proof fn lemma_modern_means_known_family(name: Seq<char>)
    ensures
        modern_gpu(name) <==> exists|f: int| 0 <= f < gpu_families().len() && contains(name, #[trigger] gpu_families()[f]),
{
    let fs = gpu_families();
    if modern_gpu(name) {
        if contains(name, "RTX"@) { assert(contains(name, fs[0])); }
        else if contains(name, "GTX 16"@) { assert(contains(name, fs[1])); }
        else if contains(name, "GTX 10"@) { assert(contains(name, fs[2])); }
        else if contains(name, "A100"@) { assert(contains(name, fs[3])); }
        else if contains(name, "A4000"@) { assert(contains(name, fs[4])); }
        else if contains(name, "A5000"@) { assert(contains(name, fs[5])); }
        else if contains(name, "A6000"@) { assert(contains(name, fs[6])); }
        else { assert(contains(name, fs[7])); }
    }
    if exists|f: int| 0 <= f < fs.len() && contains(name, #[trigger] fs[f]) {
        let f = choose|f: int| 0 <= f < fs.len() && contains(name, #[trigger] fs[f]);
        assert(f == 0 || f == 1 || f == 2 || f == 3 || f == 4 || f == 5 || f == 6 || f == 7);
    }
}

} // verus!
