//! The first-run wizard: which model to offer, the settings it writes, and
//! the download progress it shows.
use vstd::prelude::*;
use crate::config::{Config, HotkeyConfig, Readiness, DEFAULT_SILENCE_BITS};
use crate::downloader::{Manifest, NvidiaInfo};
use crate::text::{decimal, owned, push_decimal, push_str, str_eq};
use vstd::arithmetic::power2::{lemma2_to64, lemma_pow2_unfold, pow2};

verus! {

/// The models the wizard offers.
#[derive(Debug, Clone, Copy, PartialEq, Eq, Structural)]
pub enum ModelKey {
    Medium,
    Large,
}

impl ModelKey {
    /// The model's name in the manifest.
    pub fn as_str(&self) -> (s: &'static str)
        ensures s@ == (match *self { ModelKey::Medium => "medium"@, ModelKey::Large => "large-v3"@ }),
    {
        match self {
            ModelKey::Medium => "medium",
            ModelKey::Large => "large-v3",
        }
    }
}

/// The model proposed first: the large one with a capable NVIDIA card,
/// else the medium one.
pub fn model_for_gpu(gpu: &Option<NvidiaInfo>) -> (k: ModelKey)
    ensures k == (match gpu { Some(g) => if g.capable { ModelKey::Large } else { ModelKey::Medium }, None => ModelKey::Medium }),
{
    match gpu {
        Some(g) => if g.capable { ModelKey::Large } else { ModelKey::Medium },
        None => ModelKey::Medium,
    }
}

/// The file a model is saved as: "ggml-<name>.bin".
pub fn model_file_name(name: &str) -> (r: String)
    ensures r@ == "ggml-"@ + name@ + ".bin"@,
{
    let mut r = owned("ggml-");
    push_str(&mut r, name);
    push_str(&mut r, ".bin");
    r
}

/// The settings the wizard writes: the chosen model, language and hotkey;
/// French typography exactly for French; the other settings at their
/// defaults.
pub fn wizard_config(model_path: String, language: &str, key: &str, ctrl: bool, alt: bool, shift: bool)
    -> (c: Config)
    ensures
        c.model_path == model_path,
        c.language@ == language@,
        c.hotkey.key@ == key@ && c.hotkey.ctrl == ctrl && c.hotkey.alt == alt && c.hotkey.shift == shift,
        c.french_typography == (language@ == "fr"@),
        c.auto_capitalize && !c.auto_enter,
        c.substitutions@.len() == 0,
        c.microphone is None,
        c.config_version == 1,
        c.max_record_secs == 30 && c.min_record_ms == 300 && c.max_history == 10,
        c.beep_enabled && !c.pause_media && !c.prefix_space,
        c.silence_threshold_bits == DEFAULT_SILENCE_BITS,
        c.whisper_threads == 0 && c.inject_delay_ms == 80 && !c.whisper_no_speech,
        c.whisper_temperature_bits == crate::binary32::ZERO,
        c.beep_start_freq == 800 && c.beep_end_freq == 600 && c.beep_duration_ms == 80,
        c.log_level@ == "info"@,
{
    Config {
        model_path,
        language: owned(language),
        hotkey: HotkeyConfig { ctrl, alt, shift, key: owned(key) },
        french_typography: str_eq(language, "fr"),
        auto_capitalize: true,
        auto_enter: false,
        substitutions: Vec::new(),
        microphone: None,
        config_version: 1,
        max_record_secs: 30,
        min_record_ms: 300,
        max_history: 10,
        beep_enabled: true,
        silence_threshold_bits: DEFAULT_SILENCE_BITS,
        pause_media: false,
        prefix_space: false,
        whisper_threads: 0,
        inject_delay_ms: 80,
        whisper_no_speech: false,
        whisper_temperature_bits: crate::binary32::ZERO,
        beep_start_freq: 800,
        beep_end_freq: 600,
        beep_duration_ms: 80,
        log_level: owned("info"),
    }
}

/// The wizard runs when the model or whisper-cli is missing.
pub fn needs_setup(r: &Readiness) -> (b: bool)
    ensures b == (!r.model_present || !r.cli_present),
{
    !r.model_present || !r.cli_present
}

/// The least `s` from the given one on (at most 64) with `n < 2^(24+s)`:
/// how many low bits of `n` a binary32 value cannot hold.
pub open spec fn f32_shift(n: nat, s: nat) -> nat
    decreases 64 - s,
{
    if s >= 64 || n < pow2(24 + s) { s } else { f32_shift(n, s + 1) }
}

/// `n as f32`: `n` rounded to 24 significant bits, to the nearest value and
/// to the even one on a tie.
pub open spec fn binary32_value(n: nat) -> nat {
    let p = pow2(f32_shift(n, 0));
    let q = n / p;
    let r = n % p;
    let up = r * 2 > p || (r * 2 == p && q % 2 == 1);
    (q + if up { 1nat } else { 0nat }) * p
}

/// `v / d` rounded to the nearest integer, to the even one on a tie (what
/// `{:.0}` prints of an exact binary fraction).
pub open spec fn round_half_even(v: nat, d: nat) -> nat {
    let q = v / d;
    let r = v % d;
    if r * 2 > d || (r * 2 == d && q % 2 == 1) { q + 1 } else { q }
}

/// The megabytes shown for `n` bytes: `n as f32 / 1048576.0` printed with
/// no decimals.
pub open spec fn mb_shown(n: nat) -> nat {
    round_half_even(binary32_value(n), pow2(20))
}

fn binary32_round(n: u64) -> (v: u128)
    ensures
        v == binary32_value(n as nat),
        v <= 2 * (u64::MAX as nat),
{
    proof { lemma2_to64(); }
    let mut s: u32 = 0;
    let mut p: u128 = 1;
    let mut lim: u128 = 16777216;
    while s < 64 && (n as u128) >= lim
        invariant
            s <= 64,
            p == pow2(s as nat),
            lim == pow2(24 + s as nat),
            lim == p * 16777216,
            p >= 1,
            lim <= 2 * (u64::MAX as nat) + 2,
            s > 0 ==> lim <= 2 * (n as nat),
            f32_shift(n as nat, s as nat) == f32_shift(n as nat, 0),
        decreases 64 - s,
    {
        proof {
            lemma_pow2_unfold(s as nat + 1);
            lemma_pow2_unfold(24 + s as nat + 1);
        }
        p = p * 2;
        lim = lim * 2;
        s = s + 1;
    }
    let nn = n as u128;
    let q = nn / p;
    let r = nn % p;
    assert(q * p <= nn) by (nonlinear_arith)
        requires p > 0, q == nn / p;
    assert(p <= nn + 1);
    let up = r * 2 > p || (r * 2 == p && q % 2 == 1);
    let k: u128 = if up { 1 } else { 0 };
    assert((q + k) * p <= nn + p) by (nonlinear_arith)
        requires k <= 1, q * p <= nn;
    let v = (q + k) * p;
    v
}

/// The megabytes shown for `n` bytes.
pub fn mb_of(n: u64) -> (m: u64)
    ensures m == mb_shown(n as nat),
{
    proof { lemma2_to64(); }
    let v = binary32_round(n);
    let d: u128 = 1048576;
    let q = v / d;
    let r = v % d;
    let up = r * 2 > d || (r * 2 == d && q % 2 == 1);
    let m = if up { q + 1 } else { q };
    (m as u64)
}

/// What the wizard shows of the downloads under way.
pub struct DownloadProgress {
    pub downloaded: u64,
    pub total: u64,
    pub finished: bool,
    pub error: Option<String>,
    pub current_file: String,
}

impl DownloadProgress {
    /// Nothing downloaded yet.
    pub fn new() -> (p: Self)
        ensures
            p.downloaded == 0 && p.total == 0 && !p.finished && p.error is None,
            p.current_file@ == Seq::<char>::empty(),
    {
        DownloadProgress { downloaded: 0, total: 0, finished: false, error: None, current_file: String::new() }
    }

    /// "<done> MB / <total> MB", each as `{:.0}` prints the size in binary32
    /// megabytes.
    pub fn mb_display(&self) -> (r: String)
        ensures r@ == decimal(mb_shown(self.downloaded as nat)) + " MB / "@ + decimal(mb_shown(self.total as nat)) + " MB"@,
    {
        let mut r = String::new();
        push_decimal(&mut r, mb_of(self.downloaded));
        push_str(&mut r, " MB / ");
        push_decimal(&mut r, mb_of(self.total));
        push_str(&mut r, " MB");
        proof { reveal_strlit(""); }
        r
    }

    /// Records progress on a file.
    pub fn update(&mut self, file: &str, downloaded: u64, total: u64)
        ensures
            final(self).current_file@ == file@,
            final(self).downloaded == downloaded,
            final(self).total == total,
            final(self).finished == old(self).finished,
            final(self).error == old(self).error,
    {
        self.current_file = owned(file);
        self.downloaded = downloaded;
        self.total = total;
    }
}


/// The title of the download page for the file under way.
pub fn download_title(current_file: &str) -> (t: &'static str)
    ensures
        t@ == if crate::text::contains(current_file@, "ggml"@) {
            "Téléchargement du modèle Whisper"@
        } else if current_file@.len() == 0 {
            "Préparation..."@
        } else {
            "Téléchargement des outils"@
        },
{
    if crate::text::contains_str(current_file, "ggml") {
        "Téléchargement du modèle Whisper"
    } else if current_file.is_empty() {
        "Préparation..."
    } else {
        "Téléchargement des outils"
    }
}

/// The manifest lists a model under `key`.
pub open spec fn lists_model(m: Manifest, key: Seq<char>) -> bool {
    exists|i: int| 0 <= i < m.models@.len() && (#[trigger] m.models@[i]).0@ == key
}

/// Why the wizard cannot start the download, as the message it shows: no
/// internet connection, no manifest yet, or no model of that name in it.
pub open spec fn download_problem_text(online: bool, manifest: Option<Manifest>, key: Seq<char>) -> Option<Seq<char>> {
    if !online {
        Some("Pas de connexion internet. Vérifier le réseau."@)
    } else {
        match manifest {
            None => Some("Manifest non chargé."@),
            Some(m) => if lists_model(m, key) {
                None
            } else {
                Some("Modèle '"@ + key + "' absent du manifest."@)
            },
        }
    }
}

/// An optional borrowed manifest as a value.
pub open spec fn manifest_value(m: Option<&Manifest>) -> Option<Manifest> {
    match m {
        Some(x) => Some(*x),
        None => None,
    }
}

/// The message that stops the download before it starts, if any.
pub fn download_problem(online: bool, manifest: Option<&Manifest>, key: &str) -> (r: Option<String>)
    requires manifest matches Some(m) ==> m.wf(),
    ensures
        match r {
            Some(s) => download_problem_text(online, manifest_value(manifest), key@) == Some(s@),
            None => download_problem_text(online, manifest_value(manifest), key@) is None,
        },
{
    if !online {
        return Some(owned("Pas de connexion internet. Vérifier le réseau."));
    }
    match manifest {
        None => Some(owned("Manifest non chargé.")),
        Some(m) => match m.model(key) {
            Some(_) => {
                assert(lists_model(*m, key@));
                None
            },
            None => {
                let mut s = owned("Modèle '");
                push_str(&mut s, key);
                push_str(&mut s, "' absent du manifest.");
                Some(s)
            },
        },
    }
}

} // verus!
