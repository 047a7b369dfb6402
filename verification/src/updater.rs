//! Updates: version comparison, the choice of the installer in a release,
//! and the checks around its download.
use vstd::prelude::*;
use crate::config::Config;
use crate::text::{
    chars_of, contains, contains_str, ends_with, ends_with_str, owned, parse_unsigned,
    parse_unsigned_chars, push_str, split, split_chars, starts_with, starts_with_str, string_of,
};

verus! {

broadcast use vstd::seq_lib::group_seq_properties;

/// The numbers of the dot-separated parts that parse as `u32`, in order
/// (parts that do not parse are skipped).
pub open spec fn parsed_parts(ps: Seq<Seq<char>>) -> Seq<nat>
    decreases ps.len(),
{
    if ps.len() == 0 {
        seq![]
    } else {
        let prev = parsed_parts(ps.drop_last());
        match parse_unsigned(ps.last(), u32::MAX as nat) {
            Some(n) => prev.push(n),
            None => prev,
        }
    }
}

pub open spec fn part_or_zero(s: Seq<nat>, i: int) -> nat {
    if 0 <= i < s.len() { s[i] } else { 0 }
}

/// A version string as (major, minor, patch): the first three numbers of
/// its parts, 0 for those missing.
pub open spec fn version_key(v: Seq<char>) -> (nat, nat, nat) {
    let p = parsed_parts(split(v, '.'));
    (part_or_zero(p, 0), part_or_zero(p, 1), part_or_zero(p, 2))
}

/// `x` comes after `y` in lexicographic order.
pub open spec fn key_after(x: (nat, nat, nat), y: (nat, nat, nat)) -> bool {
    x.0 > y.0 || (x.0 == y.0 && (x.1 > y.1 || (x.1 == y.1 && x.2 > y.2)))
}

/// `candidate` is a later version than `current`.
pub open spec fn newer(candidate: Seq<char>, current: Seq<char>) -> bool {
    key_after(version_key(candidate), version_key(current))
}

/// The (major, minor, patch) numbers of a version string.
pub fn parse_version(v: &str) -> (r: (u32, u32, u32))
    ensures (r.0 as nat, r.1 as nat, r.2 as nat) == version_key(v@),
{
    let parts = split_chars(chars_of(v).as_slice(), '.');
    let ghost ps = split(v@, '.');
    let mut nums: Vec<u32> = Vec::new();
    let mut i: usize = 0;
    while i < parts.len()
        invariant
            i <= parts@.len(),
            parts@.len() == ps.len(),
            forall|k: int| 0 <= k < parts@.len() ==> (#[trigger] parts@[k])@ == ps[k],
            nums@.len() == parsed_parts(ps.take(i as int)).len(),
            forall|k: int| 0 <= k < nums@.len() ==> nums@[k] as nat == #[trigger] parsed_parts(ps.take(i as int))[k],
        decreases parts@.len() - i,
    {
        assert(ps.take(i as int + 1).drop_last() == ps.take(i as int));
        assert(ps.take(i as int + 1).last() == ps[i as int]);
        match parse_unsigned_chars(parts[i].as_slice(), 0xffff_ffff) {
            Some(n) => {
                nums.push(n as u32);
            },
            None => {},
        }
        i += 1;
    }
    assert(ps.take(ps.len() as int) == ps);
    let a = if nums.len() > 0 { nums[0] } else { 0 };
    let b = if nums.len() > 1 { nums[1] } else { 0 };
    let c = if nums.len() > 2 { nums[2] } else { 0 };
    (a, b, c)
}

/// Whether `candidate` is a later version than `current`, comparing
/// (major, minor, patch) in order: "0.2.0" is newer than "0.1.1".
pub fn is_newer(candidate: &str, current: &str) -> (r: bool)
    ensures r == newer(candidate@, current@),
{
    let x = parse_version(candidate);
    let y = parse_version(current);
    x.0 > y.0 || (x.0 == y.0 && (x.1 > y.1 || (x.1 == y.1 && x.2 > y.2)))
}

/// No version is newer than itself.
pub proof fn lemma_newer_irreflexive(v: Seq<char>)
    ensures !newer(v, v),
{
}

/// Of two versions, at most one is newer than the other.
pub proof fn lemma_newer_asymmetric(a: Seq<char>, b: Seq<char>)
    ensures newer(a, b) ==> !newer(b, a),
{
}

/// A version newer than a version newer than a third is newer than it.
pub proof fn lemma_newer_transitive(a: Seq<char>, b: Seq<char>, c: Seq<char>)
    ensures newer(a, b) && newer(b, c) ==> newer(a, c),
{
}

/// An asset of a release.
pub struct GithubAsset {
    pub name: String,
    pub browser_download_url: String,
    pub size: u64,
}

/// The latest release as the releases API describes it.
pub struct GithubRelease {
    pub tag_name: String,
    pub html_url: String,
    pub assets: Vec<GithubAsset>,
    pub prerelease: bool,
    pub draft: bool,
}

/// An update that can be installed.
pub struct UpdateInfo {
    pub version: String,
    pub url: String,
    pub installer_url: String,
    pub installer_size: u64,
}

/// `s` without the copies of `c` at its start (`str::trim_start_matches`).
pub open spec fn trim_leading(s: Seq<char>, c: char) -> Seq<char>
    decreases s.len(),
{
    if s.len() > 0 && s[0] == c { trim_leading(s.drop_first(), c) } else { s }
}

fn trim_leading_chars(s: &str, c: char) -> (r: String)
    ensures r@ == trim_leading(s@, c),
{
    let v = chars_of(s);
    let mut i: usize = 0;
    while i < v.len() && v[i] == c
        invariant
            i <= v@.len(),
            v@ == s@,
            trim_leading(v@.subrange(i as int, v@.len() as int), c) == trim_leading(v@, c),
        decreases v@.len() - i,
    {
        let ghost rest = v@.subrange(i as int, v@.len() as int);
        assert(rest.drop_first() == v@.subrange(i + 1, v@.len() as int));
        i += 1;
    }
    let tail = vstd::slice::slice_subrange(v.as_slice(), i, v.len());
    string_of(tail)
}

/// The installer of a release: a "Dictum-Setup…" asset ending in ".exe".
pub open spec fn is_installer(name: Seq<char>) -> bool {
    starts_with(name, "Dictum-Setup"@) && ends_with(name, ".exe"@)
}

/// What the update check offers for a release, with `current` the running
/// version: nothing for a pre-release or a draft, nothing unless the tag
/// (without its leading `v`s) is newer, nothing without an installer among
/// the assets; else that version, the release page and the first installer.
pub open spec fn offered(r: GithubRelease, current: Seq<char>, u: Option<UpdateInfo>) -> bool {
    let latest = trim_leading(r.tag_name@, 'v');
    if r.prerelease || r.draft || !newer(latest, current) {
        u is None
    } else {
        match u {
            None => forall|i: int| 0 <= i < r.assets@.len() ==> !is_installer(#[trigger] r.assets@[i].name@),
            Some(info) => exists|i: int| {
                &&& 0 <= i < r.assets@.len()
                &&& is_installer(#[trigger] r.assets@[i].name@)
                &&& forall|j: int| 0 <= j < i ==> !is_installer(#[trigger] r.assets@[j].name@)
                &&& info.version@ == latest
                &&& info.url@ == r.html_url@
                &&& info.installer_url@ == r.assets@[i].browser_download_url@
                &&& info.installer_size == r.assets@[i].size
            },
        }
    }
}

/// The update a release offers over the running version `current`.
pub fn select_update(release: &GithubRelease, current: &str) -> (u: Option<UpdateInfo>)
    ensures offered(*release, current@, u),
{
    if release.prerelease || release.draft {
        return None;
    }
    let latest = trim_leading_chars(release.tag_name.as_str(), 'v');
    if !is_newer(latest.as_str(), current) {
        return None;
    }
    let mut i: usize = 0;
    while i < release.assets.len()
        invariant
            i <= release.assets@.len(),
            forall|j: int| 0 <= j < i ==> !is_installer(#[trigger] release.assets@[j].name@),
            latest@ == trim_leading(release.tag_name@, 'v'),
            !release.prerelease && !release.draft,
            newer(latest@, current@),
        decreases release.assets@.len() - i,
    {
        let a = &release.assets[i];
        if starts_with_str(a.name.as_str(), "Dictum-Setup") && ends_with_str(a.name.as_str(), ".exe") {
            let info = UpdateInfo {
                version: latest,
                url: release.html_url.clone(),
                installer_url: a.browser_download_url.clone(),
                installer_size: a.size,
            };
            assert(is_installer(release.assets@[i as int].name@));
            assert({
                &&& is_installer(release.assets@[i as int].name@)
                &&& forall|j: int| 0 <= j < i ==> !is_installer(#[trigger] release.assets@[j].name@)
                &&& info.version@ == trim_leading(release.tag_name@, 'v')
                &&& info.url@ == release.html_url@
                &&& info.installer_url@ == release.assets@[i as int].browser_download_url@
                &&& info.installer_size == release.assets@[i as int].size
            });
            return Some(info);
        }
        i += 1;
    }
    None
}

/// The update a release offers over this version of the application.
pub fn check_release(release: &GithubRelease) -> (u: Option<UpdateInfo>)
    ensures offered(*release, "1.0.0"@, u),
{
    select_update(release, Config::app_version())
}

/// The pause before retry number `attempt + 1` of the update check (three
/// tries in all): 1 s, then 2 s; none after the last.
pub fn retry_delay_secs(attempt: u32) -> (r: Option<u64>)
    ensures r == if attempt < 2 { Some(if attempt == 0 { 1u64 } else { 2u64 }) } else { None::<u64> },
{
    if attempt < 2 {
        Some(if attempt == 0 { 1 } else { 2 })
    } else {
        None
    }
}

/// The file the installer of `version` is saved as.
pub fn installer_file_name(version: &str) -> (r: String)
    ensures r@ == "Dictum-Setup-"@ + version@ + ".exe"@,
{
    let mut r = owned("Dictum-Setup-");
    push_str(&mut r, version);
    push_str(&mut r, ".exe");
    r
}

/// A saved installer of another version, to be deleted before a new download.
pub fn is_stale_installer(file_name: &str, version: &str) -> (r: bool)
    ensures r == (starts_with(file_name@, "Dictum-Setup-"@) && ends_with(file_name@, ".exe"@)
        && !contains(file_name@, version@)),
{
    starts_with_str(file_name, "Dictum-Setup-") && ends_with_str(file_name, ".exe")
        && !contains_str(file_name, version)
}

/// The download came out under half the announced size (when one is announced).
pub fn download_truncated(downloaded: u64, announced: u64) -> (r: bool)
    ensures r == (announced > 0 && downloaded < announced / 2),
{
    announced > 0 && downloaded < announced / 2
}

} // verus!
