//! The dictation settings, their repair, their checks and their derived labels.
use vstd::prelude::*;
use crate::binary32::{self, clamp_unit, eq as f32_eq, lt as f32_lt, clamp_to_unit};
use crate::text::{
    bool_text, contains, contains_str, decimal, owned, push_decimal, push_str, str_eq,
};
pub use crate::substitution::Substitution;

verus! {

/// The key combination held to record.
#[derive(Debug, Clone)]
pub struct HotkeyConfig {
    pub ctrl: bool,
    pub alt: bool,
    pub shift: bool,
    /// "F9", "F10", "Space", ...
    pub key: String,
}

impl Default for HotkeyConfig {
    fn default() -> (r: Self)
        ensures !r.ctrl && !r.alt && !r.shift && r.key@ == "F9"@,
    {
        HotkeyConfig { ctrl: false, alt: false, shift: false, key: owned("F9") }
    }
}

impl HotkeyConfig {
    pub fn duplicate(&self) -> (r: Self)
        ensures r == *self,
    {
        HotkeyConfig { ctrl: self.ctrl, alt: self.alt, shift: self.shift, key: self.key.clone() }
    }
}

/// The settings. The two real-valued settings are held as the bit patterns
/// of their IEEE-754 binary32 values (see `binary32`).
#[derive(Debug, Clone)]
pub struct Config {
    /// Version of the settings file.
    pub config_version: u32,
    /// The Whisper model file (ggml `.bin`).
    pub model_path: String,
    /// Language code: "fr", "en", "auto", ...
    pub language: String,
    pub hotkey: HotkeyConfig,
    /// Press Enter after typing the text.
    pub auto_enter: bool,
    /// No-break spaces before `? ! : ;` and the other French rules.
    pub french_typography: bool,
    /// Capital first letter.
    pub auto_capitalize: bool,
    pub substitutions: Vec<Substitution>,
    /// Microphone name (`None`: the system default).
    pub microphone: Option<String>,
    pub max_record_secs: u64,
    /// Shorter recordings are ignored.
    pub min_record_ms: u64,
    pub max_history: usize,
    pub beep_enabled: bool,
    /// RMS level below which audio is silence (0.0–1.0), as binary32 bits.
    pub silence_threshold_bits: u32,
    /// Pause media players while recording.
    pub pause_media: bool,
    /// Type a space before the text.
    pub prefix_space: bool,
    /// CPU threads for whisper-cli (0: automatic).
    pub whisper_threads: u32,
    /// Delay before typing, in milliseconds.
    pub inject_delay_ms: u64,
    pub whisper_no_speech: bool,
    /// Whisper temperature (0.0 deterministic), as binary32 bits.
    pub whisper_temperature_bits: u32,
    pub beep_start_freq: u32,
    pub beep_end_freq: u32,
    pub beep_duration_ms: u32,
    /// "error", "warn", "info", "debug" or "trace".
    pub log_level: String,
}

/// 0.005 as binary32: the default silence threshold.
pub const DEFAULT_SILENCE_BITS: u32 = 0x3ba3_d70a;
/// 0.001, 0.002, 0.003, 0.008, 0.01, 0.02, 0.05, 0.1 and 0.5 as binary32.
pub const F32_0_001: u32 = 0x3a83_126f;
pub const F32_0_002: u32 = 0x3b03_126f;
pub const F32_0_003: u32 = 0x3b44_9ba6;
pub const F32_0_008: u32 = 0x3c03_126f;
pub const F32_0_01: u32 = 0x3c23_d70a;
pub const F32_0_02: u32 = 0x3ca3_d70a;
pub const F32_0_05: u32 = 0x3d4c_cccd;
pub const F32_0_1: u32 = 0x3dcc_cccd;
pub const F32_0_5: u32 = 0x3f00_0000;


/// The same settings (the rule list compared by its elements).
pub open spec fn same(a: Config, b: Config) -> bool {
    &&& a.config_version == b.config_version
    &&& a.model_path == b.model_path
    &&& a.language == b.language
    &&& a.hotkey == b.hotkey
    &&& a.auto_enter == b.auto_enter
    &&& a.french_typography == b.french_typography
    &&& a.auto_capitalize == b.auto_capitalize
    &&& a.substitutions@ == b.substitutions@
    &&& a.microphone == b.microphone
    &&& a.max_record_secs == b.max_record_secs
    &&& a.min_record_ms == b.min_record_ms
    &&& a.max_history == b.max_history
    &&& a.beep_enabled == b.beep_enabled
    &&& a.silence_threshold_bits == b.silence_threshold_bits
    &&& a.pause_media == b.pause_media
    &&& a.prefix_space == b.prefix_space
    &&& a.whisper_threads == b.whisper_threads
    &&& a.inject_delay_ms == b.inject_delay_ms
    &&& a.whisper_no_speech == b.whisper_no_speech
    &&& a.whisper_temperature_bits == b.whisper_temperature_bits
    &&& a.beep_start_freq == b.beep_start_freq
    &&& a.beep_end_freq == b.beep_end_freq
    &&& a.beep_duration_ms == b.beep_duration_ms
    &&& a.log_level == b.log_level
}

/// What is known of the files the settings point to: whether the model file
/// and whisper-cli exist, and whether the model file has an extension other
/// than "bin".
#[derive(Debug, Clone, Copy)]
pub struct Readiness {
    pub model_present: bool,
    pub cli_present: bool,
    pub model_ext_wrong: bool,
}

/// A problem found in the settings.
#[derive(Debug, Clone, Copy, PartialEq, Eq, Structural)]
pub enum Issue {
    ModelMissing,
    CliMissing,
    HotkeyUndefined,
    MaxRecordZero,
    SilenceTooHigh,
    InjectDelayHigh,
    ModelNotBin,
    TemperatureHigh,
}

pub open spec fn is_log_level(s: Seq<char>) -> bool {
    s == "error"@ || s == "warn"@ || s == "info"@ || s == "debug"@ || s == "trace"@
}

pub fn valid_log_level(s: &str) -> (r: bool)
    ensures r == is_log_level(s@),
{
    str_eq(s, "error") || str_eq(s, "warn") || str_eq(s, "info") || str_eq(s, "debug") || str_eq(s, "trace")
}

/// Settings whose values all lie in their ranges, as repair leaves them
/// (the model path aside).
pub open spec fn is_sane(c: Config) -> bool {
    &&& c.max_record_secs != 0
    &&& c.min_record_ms <= 5000
    &&& 1 <= c.max_history <= 100
    &&& clamp_unit(c.silence_threshold_bits) == c.silence_threshold_bits
    &&& c.hotkey.key@.len() > 0
    &&& c.language@.len() > 0
    &&& c.inject_delay_ms <= 1000
    &&& is_log_level(c.log_level@)
    &&& c.whisper_threads <= 32
    &&& clamp_unit(c.whisper_temperature_bits) == c.whisper_temperature_bits
    &&& 100 <= c.beep_start_freq <= 20000
    &&& 100 <= c.beep_end_freq <= 20000
    &&& 1 <= c.beep_duration_ms <= 2000
}

/// The numeric settings of `new` are those of `old` repaired.
pub open spec fn repaired_numbers(old: Config, new: Config) -> bool {
    &&& new.max_record_secs == if old.max_record_secs == 0 { 30 } else { old.max_record_secs }
    &&& new.min_record_ms == if old.min_record_ms > 5000 { 5000 } else { old.min_record_ms }
    &&& new.max_history == if old.max_history == 0 || old.max_history > 100 { 10 } else { old.max_history }
    &&& new.silence_threshold_bits == clamp_unit(old.silence_threshold_bits)
    &&& new.inject_delay_ms == if old.inject_delay_ms > 1000 { 1000 } else { old.inject_delay_ms }
    &&& new.whisper_threads == if old.whisper_threads > 32 { 32 } else { old.whisper_threads }
    &&& new.whisper_temperature_bits == clamp_unit(old.whisper_temperature_bits)
    &&& new.beep_start_freq == if old.beep_start_freq < 100 || old.beep_start_freq > 20000 { 800 } else { old.beep_start_freq }
    &&& new.beep_end_freq == if old.beep_end_freq < 100 || old.beep_end_freq > 20000 { 600 } else { old.beep_end_freq }
    &&& new.beep_duration_ms == if old.beep_duration_ms == 0 || old.beep_duration_ms > 2000 { 80 } else { old.beep_duration_ms }
}

/// The textual settings of `new` are those of `old` repaired, the model path
/// replaced by `default_model` when `reset_model`.
pub open spec fn repaired_texts(old: Config, new: Config, reset_model: bool, default_model: Seq<char>) -> bool {
    &&& new.hotkey.key@ == if old.hotkey.key@.len() == 0 { "F9"@ } else { old.hotkey.key@ }
    &&& new.language@ == if old.language@.len() == 0 { "auto"@ } else { old.language@ }
    &&& new.log_level@ == if is_log_level(old.log_level@) { old.log_level@ } else { "info"@ }
    &&& new.model_path@ == if reset_model { default_model } else { old.model_path@ }
}

/// The settings that repair never changes are the same.
pub open spec fn repair_keeps(old: Config, new: Config) -> bool {
    &&& new.hotkey.ctrl == old.hotkey.ctrl
    &&& new.hotkey.alt == old.hotkey.alt
    &&& new.hotkey.shift == old.hotkey.shift
    &&& new.config_version == old.config_version
    &&& new.auto_enter == old.auto_enter
    &&& new.french_typography == old.french_typography
    &&& new.auto_capitalize == old.auto_capitalize
    &&& new.substitutions@ == old.substitutions@
    &&& new.microphone == old.microphone
    &&& new.beep_enabled == old.beep_enabled
    &&& new.pause_media == old.pause_media
    &&& new.prefix_space == old.prefix_space
    &&& new.whisper_no_speech == old.whisper_no_speech
}

/// `new` is `old` repaired: each value out of range replaced by its default
/// or clamped, the model path replaced by `default_model` when `reset_model`.
pub open spec fn repaired(old: Config, new: Config, reset_model: bool, default_model: Seq<char>) -> bool {
    repaired_numbers(old, new) && repaired_texts(old, new, reset_model, default_model) && repair_keeps(old, new)
}

/// Whether a model file extension calls for resetting the model path: there
/// is one and it is not "bin".
pub open spec fn wrong_model_ext(ext: Option<Seq<char>>) -> bool {
    ext matches Some(e) && e != "bin"@
}

/// The index of the last `.` of a text, or -1 when there is none.
pub open spec fn last_dot(s: Seq<char>) -> int
    decreases s.len(),
{
    if s.len() == 0 { -1 } else if s.last() == '.' { s.len() - 1 } else { last_dot(s.drop_last()) }
}

/// The extension of a file name as `Path::extension` documents it: none for
/// `..`, none without a dot, none when the only dot begins the name,
/// otherwise what follows the last dot.
pub open spec fn file_ext(name: Seq<char>) -> Option<Seq<char>> {
    if name == ".."@ || last_dot(name) <= 0 {
        None
    } else {
        Some(name.subrange(last_dot(name) + 1, name.len() as int))
    }
}

/// An optional text by its view.
pub open spec fn opt_text(o: Option<String>) -> Option<Seq<char>> {
    match o {
        Some(s) => Some(s@),
        None => None,
    }
}

/// `Path::extension` of a path, as text. Not a function of the text alone:
/// the separators depend on the platform. What holds everywhere: an
/// extension is what follows a dot in the path (possibly nothing, for a name
/// ending in a dot); and for a `plain_path` text, whose file name is its
/// last part, it is `file_ext` of that part.
#[verifier::external_body]
fn path_extension(path: &str) -> (r: Option<String>)
    ensures
        r matches Some(e) ==> contains(path@, "."@ + e@),
        plain_name(path@) ==> opt_text(r) == file_ext(last_part(path@)),
{
    std::path::Path::new(path).extension().map(|e| e.to_string_lossy().into_owned())
}

/// The model file the settings point at by default, in the models folder.
pub fn default_model_file() -> (r: &'static str)
    ensures r@ == "ggml-medium.bin"@,
{
    "ggml-medium.bin"
}

/// The settings-file version written by this version.
pub fn default_config_version() -> (v: u32)
    ensures v == 1,
{
    1
}

/// The default pause before typing, in milliseconds.
pub fn default_inject_delay() -> (ms: u64)
    ensures ms == 80,
{
    80
}

/// The default Whisper temperature (0.0), as binary32 bits.
pub fn default_whisper_temperature_bits() -> (b: u32)
    ensures b == binary32::ZERO,
{
    binary32::ZERO
}

/// The default pitch of the start beep, in Hz.
pub fn default_beep_start_freq() -> (hz: u32)
    ensures hz == 800,
{
    800
}

/// The default pitch of the end beep, in Hz.
pub fn default_beep_end_freq() -> (hz: u32)
    ensures hz == 600,
{
    600
}

/// The default length of the beeps, in milliseconds.
pub fn default_beep_duration() -> (ms: u32)
    ensures ms == 80,
{
    80
}

/// The default log level.
pub fn default_log_level() -> (s: String)
    ensures s@ == "info"@,
{
    owned("info")
}

impl Config {
    /// The version of the application.
    pub fn app_version() -> (r: &'static str)
        ensures r@ == "1.0.0"@,
    {
        "1.0.0"
    }

    /// The default settings, with the given model file.
    pub fn defaults_at(model_path: String) -> (c: Config)
        ensures
            c.config_version == 1,
            c.model_path == model_path,
            c.language@ == "auto"@,
            !c.hotkey.ctrl && !c.hotkey.alt && !c.hotkey.shift && c.hotkey.key@ == "F9"@,
            !c.auto_enter && c.french_typography && c.auto_capitalize,
            c.substitutions@.len() == 0,
            c.microphone is None,
            c.max_record_secs == 30 && c.min_record_ms == 300 && c.max_history == 10,
            c.beep_enabled,
            c.silence_threshold_bits == DEFAULT_SILENCE_BITS,
            !c.pause_media && !c.prefix_space,
            c.whisper_threads == 0 && c.inject_delay_ms == 80 && !c.whisper_no_speech,
            c.whisper_temperature_bits == binary32::ZERO,
            c.beep_start_freq == 800 && c.beep_end_freq == 600 && c.beep_duration_ms == 80,
            c.log_level@ == "info"@,
            is_sane(c),
    {
        proof {
            reveal_strlit("F9");
            reveal_strlit("auto");
        }
        Config {
            config_version: default_config_version(),
            model_path,
            language: owned("auto"),
            hotkey: HotkeyConfig::default(),
            auto_enter: false,
            french_typography: true,
            auto_capitalize: true,
            substitutions: Vec::new(),
            microphone: None,
            max_record_secs: 30,
            min_record_ms: 300,
            max_history: 10,
            beep_enabled: true,
            silence_threshold_bits: DEFAULT_SILENCE_BITS,
            pause_media: false,
            prefix_space: false,
            whisper_threads: 0,
            inject_delay_ms: default_inject_delay(),
            whisper_no_speech: false,
            whisper_temperature_bits: default_whisper_temperature_bits(),
            beep_start_freq: default_beep_start_freq(),
            beep_end_freq: default_beep_end_freq(),
            beep_duration_ms: default_beep_duration(),
            log_level: default_log_level(),
        }
    }

    /// A field-for-field copy.
    pub fn duplicate(&self) -> (r: Self)
        ensures same(r, *self),
    {
        let mut subs: Vec<Substitution> = Vec::new();
        let mut i: usize = 0;
        while i < self.substitutions.len()
            invariant
                i <= self.substitutions@.len(),
                subs@ == self.substitutions@.take(i as int),
            decreases self.substitutions@.len() - i,
        {
            subs.push(self.substitutions[i].duplicate());
            assert(self.substitutions@.take(i as int + 1) == self.substitutions@.take(i as int).push(self.substitutions@[i as int]));
            i += 1;
        }
        assert(self.substitutions@.take(self.substitutions@.len() as int) == self.substitutions@);
        Config {
            config_version: self.config_version,
            model_path: self.model_path.clone(),
            language: self.language.clone(),
            hotkey: self.hotkey.duplicate(),
            auto_enter: self.auto_enter,
            french_typography: self.french_typography,
            auto_capitalize: self.auto_capitalize,
            substitutions: subs,
            microphone: match &self.microphone { Some(m) => Some(m.clone()), None => None },
            max_record_secs: self.max_record_secs,
            min_record_ms: self.min_record_ms,
            max_history: self.max_history,
            beep_enabled: self.beep_enabled,
            silence_threshold_bits: self.silence_threshold_bits,
            pause_media: self.pause_media,
            prefix_space: self.prefix_space,
            whisper_threads: self.whisper_threads,
            inject_delay_ms: self.inject_delay_ms,
            whisper_no_speech: self.whisper_no_speech,
            whisper_temperature_bits: self.whisper_temperature_bits,
            beep_start_freq: self.beep_start_freq,
            beep_end_freq: self.beep_end_freq,
            beep_duration_ms: self.beep_duration_ms,
            log_level: self.log_level.clone(),
        }
    }

    /// The settings with every value out of range repaired, given the
    /// extension of the model file and the default model path.
    pub fn sanitized_with(self, model_ext: Option<&str>, default_model_path: &str) -> (r: Config)
        ensures
            repaired(self, r, wrong_model_ext(match model_ext { Some(e) => Some(e@), None => None }), default_model_path@),
            is_sane(r),
    {
        let reset = match model_ext {
            Some(ext) => !str_eq(ext, "bin"),
            None => false,
        };
        let key = if self.hotkey.key.as_str().is_empty() { owned("F9") } else { self.hotkey.key };
        let language = if self.language.as_str().is_empty() { owned("auto") } else { self.language };
        let log_level = if valid_log_level(self.log_level.as_str()) { self.log_level } else { owned("info") };
        let model_path = if reset { owned(default_model_path) } else { self.model_path };
        let silence = clamp_to_unit(self.silence_threshold_bits);
        let temperature = clamp_to_unit(self.whisper_temperature_bits);
        proof {
            reveal_strlit("F9");
            reveal_strlit("auto");
            binary32::lemma_clamp_unit_range(self.silence_threshold_bits);
            binary32::lemma_clamp_unit_range(self.whisper_temperature_bits);
        }
        Config {
            config_version: self.config_version,
            model_path,
            language,
            hotkey: HotkeyConfig { ctrl: self.hotkey.ctrl, alt: self.hotkey.alt, shift: self.hotkey.shift, key },
            auto_enter: self.auto_enter,
            french_typography: self.french_typography,
            auto_capitalize: self.auto_capitalize,
            substitutions: self.substitutions,
            microphone: self.microphone,
            max_record_secs: if self.max_record_secs == 0 { 30 } else { self.max_record_secs },
            min_record_ms: if self.min_record_ms > 5000 { 5000 } else { self.min_record_ms },
            max_history: if self.max_history == 0 || self.max_history > 100 { 10 } else { self.max_history },
            beep_enabled: self.beep_enabled,
            silence_threshold_bits: silence,
            pause_media: self.pause_media,
            prefix_space: self.prefix_space,
            whisper_threads: if self.whisper_threads > 32 { 32 } else { self.whisper_threads },
            inject_delay_ms: if self.inject_delay_ms > 1000 { 1000 } else { self.inject_delay_ms },
            whisper_no_speech: self.whisper_no_speech,
            whisper_temperature_bits: temperature,
            beep_start_freq: if self.beep_start_freq < 100 || self.beep_start_freq > 20000 { 800 } else { self.beep_start_freq },
            beep_end_freq: if self.beep_end_freq < 100 || self.beep_end_freq > 20000 { 600 } else { self.beep_end_freq },
            beep_duration_ms: if self.beep_duration_ms == 0 || self.beep_duration_ms > 2000 { 80 } else { self.beep_duration_ms },
            log_level,
        }
    }

    /// The settings with every value out of range repaired; the model path is
    /// reset to `default_model_path` when the model file has an extension other
    /// than "bin" (which depends on how the platform splits paths).
    pub fn sanitized(self, default_model_path: &str) -> (r: Config)
        ensures
            repaired(self, r, true, default_model_path@) || repaired(self, r, false, default_model_path@),
            plain_name(self.model_path@) ==> repaired(
                self,
                r,
                wrong_model_ext(file_ext(last_part(self.model_path@))),
                default_model_path@,
            ),
            is_sane(r),
    {
        let ext = path_extension(self.model_path.as_str());
        match ext {
            Some(e) => self.sanitized_with(Some(e.as_str()), default_model_path),
            None => self.sanitized_with(None, default_model_path),
        }
    }
}

/// Repairing settings that are already in range changes nothing but,
/// possibly, the model path.
pub proof fn lemma_repair_keeps_sane(old: Config, new: Config, reset: bool, default_model: Seq<char>)
    requires
        is_sane(old),
        repaired(old, new, reset, default_model),
    ensures
        new.max_record_secs == old.max_record_secs,
        new.min_record_ms == old.min_record_ms,
        new.max_history == old.max_history,
        new.silence_threshold_bits == old.silence_threshold_bits,
        new.hotkey.key@ == old.hotkey.key@,
        new.language@ == old.language@,
        new.inject_delay_ms == old.inject_delay_ms,
        new.log_level@ == old.log_level@,
        new.whisper_threads == old.whisper_threads,
        new.whisper_temperature_bits == old.whisper_temperature_bits,
        new.beep_start_freq == old.beep_start_freq,
        new.beep_end_freq == old.beep_end_freq,
        new.beep_duration_ms == old.beep_duration_ms,
{
}

/// Repair is idempotent: repairing twice gives what repairing once gave,
/// the model path aside.
pub proof fn lemma_repair_idempotent(a: Config, b: Config, c: Config, r1: bool, r2: bool, d: Seq<char>)
    requires
        repaired(a, b, r1, d),
        is_sane(b),
        repaired(b, c, r2, d),
    ensures
        c.max_record_secs == b.max_record_secs,
        c.min_record_ms == b.min_record_ms,
        c.max_history == b.max_history,
        c.silence_threshold_bits == b.silence_threshold_bits,
        c.hotkey.key@ == b.hotkey.key@,
        c.language@ == b.language@,
        c.inject_delay_ms == b.inject_delay_ms,
        c.log_level@ == b.log_level@,
        c.whisper_threads == b.whisper_threads,
        c.whisper_temperature_bits == b.whisper_temperature_bits,
        c.beep_start_freq == b.beep_start_freq,
        c.beep_end_freq == b.beep_end_freq,
        c.beep_duration_ms == b.beep_duration_ms,
{
    lemma_repair_keeps_sane(b, c, r2, d);
}

/// The model path is stable under a second repair when the repair reads the
/// extension of each path's last part (as `sanitized` does for
/// `plain_name` paths) and the default model file has no wrong extension.
pub proof fn lemma_repair_twice_keeps_model(a: Config, b: Config, c: Config, d: Seq<char>)
    requires
        !wrong_model_ext(file_ext(last_part(d))),
        repaired(a, b, wrong_model_ext(file_ext(last_part(a.model_path@))), d),
        repaired(b, c, wrong_model_ext(file_ext(last_part(b.model_path@))), d),
    ensures
        c.model_path@ == b.model_path@,
{
}

proof fn lemma_repair_sane(old: Config, new: Config, reset: bool, d: Seq<char>)
    requires repaired(old, new, reset, d),
    ensures is_sane(new),
{
    reveal_strlit("F9");
    reveal_strlit("auto");
    binary32::lemma_clamp_unit_range(old.silence_threshold_bits);
    binary32::lemma_clamp_unit_range(old.whisper_temperature_bits);
}

/// Two settings that agree on every value (texts by their characters).
pub open spec fn same_settings(x: Config, y: Config) -> bool {
    &&& x.config_version == y.config_version
    &&& x.model_path@ == y.model_path@
    &&& x.language@ == y.language@
    &&& x.hotkey.ctrl == y.hotkey.ctrl && x.hotkey.alt == y.hotkey.alt && x.hotkey.shift == y.hotkey.shift
    &&& x.hotkey.key@ == y.hotkey.key@
    &&& x.auto_enter == y.auto_enter
    &&& x.french_typography == y.french_typography
    &&& x.auto_capitalize == y.auto_capitalize
    &&& x.substitutions@ == y.substitutions@
    &&& x.microphone == y.microphone
    &&& x.max_record_secs == y.max_record_secs
    &&& x.min_record_ms == y.min_record_ms
    &&& x.max_history == y.max_history
    &&& x.beep_enabled == y.beep_enabled
    &&& x.silence_threshold_bits == y.silence_threshold_bits
    &&& x.pause_media == y.pause_media
    &&& x.prefix_space == y.prefix_space
    &&& x.whisper_threads == y.whisper_threads
    &&& x.inject_delay_ms == y.inject_delay_ms
    &&& x.whisper_no_speech == y.whisper_no_speech
    &&& x.whisper_temperature_bits == y.whisper_temperature_bits
    &&& x.beep_start_freq == y.beep_start_freq
    &&& x.beep_end_freq == y.beep_end_freq
    &&& x.beep_duration_ms == y.beep_duration_ms
    &&& x.log_level@ == y.log_level@
}

/// Repair as `sanitized` does it for a `plain_name` model path, with a
/// plain default model file whose extension is fine: the repaired settings
/// are in range and their model file has no wrong extension, and repairing
/// them again changes nothing at all.
pub proof fn lemma_sanitize_idempotent(a: Config, b: Config, c: Config, d: Seq<char>)
    requires
        plain_name(a.model_path@),
        plain_name(d),
        !wrong_model_ext(file_ext(last_part(d))),
        repaired(a, b, wrong_model_ext(file_ext(last_part(a.model_path@))), d),
        repaired(b, c, wrong_model_ext(file_ext(last_part(b.model_path@))), d),
    ensures
        is_sane(b),
        plain_name(b.model_path@),
        !wrong_model_ext(file_ext(last_part(b.model_path@))),
        same_settings(c, b),
{
    lemma_repair_sane(a, b, wrong_model_ext(file_ext(last_part(a.model_path@))), d);
    lemma_repair_keeps_sane(b, c, wrong_model_ext(file_ext(last_part(b.model_path@))), d);
}

/// The problems found in the settings, in the order they are reported.
pub open spec fn issue_list(c: Config, r: Readiness) -> Seq<Issue> {
    when(!r.model_present, Issue::ModelMissing)
    + when(!r.cli_present, Issue::CliMissing)
    + when(c.hotkey.key@.len() == 0, Issue::HotkeyUndefined)
    + when(c.max_record_secs == 0, Issue::MaxRecordZero)
    + when(binary32::le(binary32::ONE, c.silence_threshold_bits), Issue::SilenceTooHigh)
    + when(c.inject_delay_ms > 500, Issue::InjectDelayHigh)
    + when(r.model_present && r.model_ext_wrong, Issue::ModelNotBin)
    + when(f32_lt(F32_0_5, c.whisper_temperature_bits), Issue::TemperatureHigh)
}

/// The issue alone when the condition holds, nothing otherwise.
#[verifier::opaque]
pub open spec fn when(b: bool, i: Issue) -> Seq<Issue> {
    if b { seq![i] } else { seq![] }
}

fn push_when(v: &mut Vec<Issue>, b: bool, i: Issue)
    ensures final(v)@ == old(v)@ + when(b, i),
{
    reveal(when);
    if b {
        v.push(i);
    }
    assert(final(v)@ =~= old(v)@ + when(b, i)) by {
        if !b { assert(old(v)@ + Seq::<Issue>::empty() =~= old(v)@); }
    }
}

/// Whisper runs with explicit threads or a low temperature (below 0.1).
pub open spec fn whisper_tuned(c: Config) -> bool {
    c.whisper_threads > 0 || f32_lt(c.whisper_temperature_bits, F32_0_1)
}

/// The readiness score out of 100.
pub open spec fn score_of(c: Config, r: Readiness) -> nat {
    (if r.model_present { 30nat } else { 0 })
    + (if r.cli_present { 20nat } else { 0 })
    + (if issue_list(c, r).len() == 0 { 20nat } else { 0 })
    + (if c.substitutions@.len() > 0 { 10nat } else { 0 })
    + (if c.language@ != "auto"@ { 5nat } else { 0 })
    + (if c.beep_enabled { 5nat } else { 0 })
    + (if whisper_tuned(c) { 10nat } else { 0 })
}

/// The label of a score.
pub open spec fn score_label_of(s: nat) -> Seq<char> {
    if 90 <= s <= 100 { "Excellent"@ }
    else if 70 <= s <= 89 { "Très bon"@ }
    else if 50 <= s <= 69 { "Bon"@ }
    else if 30 <= s <= 49 { "Basique"@ }
    else { "Incomplet"@ }
}

/// What holds of every model name the platform can give: either "?" (no
/// file name) or a non-empty part of the path.
pub open spec fn names_model(path: Seq<char>, name: Seq<char>) -> bool {
    &&& name == "?"@ || (name.len() > 0 && contains(path, name))
    &&& plain_name(path) ==> name == last_part(path)
}

/// The text after the last `/` of a path (all of it when there is none).
pub open spec fn last_part(s: Seq<char>) -> Seq<char>
    decreases s.len(),
{
    if s.len() == 0 || s.last() == '/' { seq![] } else { last_part(s.drop_last()).push(s.last()) }
}

/// A `plain_path` whose last part is a name (not `..`): every platform gives
/// that last part as its file name.
pub open spec fn plain_name(path: Seq<char>) -> bool {
    plain_path(path) && last_part(path) != ".."@
}

/// `Path::file_name` of a path, as text. Not a function of the text alone:
/// the separators depend on the platform. What holds everywhere: a name is
/// non-empty and occurs in the path; and the last component of a
/// `plain_path` text is its last part, so when that part is not `..` it is
/// the file name (a `&str` path is valid Unicode, so `to_str` succeeds).
#[verifier::external_body]
fn path_file_name(path: &str) -> (r: Option<String>)
    ensures
        r matches Some(n) ==> n@.len() > 0 && contains(path@, n@),
        plain_name(path@) ==> r is Some && r.unwrap()@ == last_part(path@),
{
    std::path::Path::new(path).file_name().and_then(|n| n.to_str()).map(|n| n.to_string())
}

/// Whisper's speed with a model, by the size named in its file name.
pub open spec fn speed_label(name: Seq<char>) -> Seq<char> {
    if contains(name, "tiny"@) { "ultra-rapide"@ }
    else if contains(name, "base"@) { "très rapide"@ }
    else if contains(name, "small"@) { "rapide"@ }
    else if contains(name, "medium"@) { "normal"@ }
    else if contains(name, "large"@) { "lent"@ }
    else { "inconnu"@ }
}

/// The size in megabytes of a model, by the size named in its file name.
pub open spec fn size_estimate(name: Seq<char>) -> nat {
    if contains(name, "large"@) { 3000 }
    else if contains(name, "medium"@) { 1500 }
    else if contains(name, "small"@) { 500 }
    else if contains(name, "base"@) { 150 }
    else if contains(name, "tiny"@) { 75 }
    else { 1500 }
}

pub fn speed_label_for(name: &str) -> (r: &'static str)
    ensures r@ == speed_label(name@),
{
    if contains_str(name, "tiny") { "ultra-rapide" }
    else if contains_str(name, "base") { "très rapide" }
    else if contains_str(name, "small") { "rapide" }
    else if contains_str(name, "medium") { "normal" }
    else if contains_str(name, "large") { "lent" }
    else { "inconnu" }
}

pub fn size_estimate_for(name: &str) -> (r: u32)
    ensures r == size_estimate(name@),
{
    if contains_str(name, "large") { 3000 }
    else if contains_str(name, "medium") { 1500 }
    else if contains_str(name, "small") { 500 }
    else if contains_str(name, "base") { 150 }
    else if contains_str(name, "tiny") { 75 }
    else { 1500 }
}

impl Config {
    /// What is known of the files: the two presence facts, and the extension
    /// of the model file.
    pub fn readiness(&self, model_present: bool, cli_present: bool) -> (r: Readiness)
        ensures
            r.model_present == model_present,
            r.cli_present == cli_present,
            r.model_ext_wrong ==> exists|e: Seq<char>| e != "bin"@ && contains(self.model_path@, "."@ + e),
            plain_name(self.model_path@) ==> r.model_ext_wrong == wrong_model_ext(
                file_ext(last_part(self.model_path@)),
            ),
    {
        let wrong = match path_extension(self.model_path.as_str()) {
            Some(e) => !str_eq(e.as_str(), "bin"),
            None => false,
        };
        Readiness { model_present, cli_present, model_ext_wrong: wrong }
    }

    /// The model and whisper-cli are both there.
    pub fn is_fully_ready(&self, r: &Readiness) -> (b: bool)
        ensures b == (r.model_present && r.cli_present),
    {
        r.model_present && r.cli_present
    }

    pub fn needs_wizard(&self, r: &Readiness) -> (b: bool)
        ensures b == !(r.model_present && r.cli_present),
    {
        !self.is_fully_ready(r)
    }

    pub fn can_transcribe(&self, r: &Readiness) -> (b: bool)
        ensures b == (r.model_present && r.cli_present),
    {
        self.is_fully_ready(r)
    }

    /// The problems in the settings (empty when all is well).
    pub fn issues(&self, r: &Readiness) -> (v: Vec<Issue>)
        ensures v@ == issue_list(*self, *r),
    {
        let c1 = !r.model_present;
        let c2 = !r.cli_present;
        let c3 = self.hotkey.key.as_str().is_empty();
        let c4 = self.max_record_secs == 0;
        let c5 = binary32::less(binary32::ONE, self.silence_threshold_bits)
            || binary32::equal(binary32::ONE, self.silence_threshold_bits);
        let c6 = self.inject_delay_ms > 500;
        let c7 = r.model_present && r.model_ext_wrong;
        let c8 = binary32::less(F32_0_5, self.whisper_temperature_bits);
        let mut v: Vec<Issue> = Vec::new();
        push_when(&mut v, c1, Issue::ModelMissing);
        push_when(&mut v, c2, Issue::CliMissing);
        push_when(&mut v, c3, Issue::HotkeyUndefined);
        push_when(&mut v, c4, Issue::MaxRecordZero);
        push_when(&mut v, c5, Issue::SilenceTooHigh);
        push_when(&mut v, c6, Issue::InjectDelayHigh);
        push_when(&mut v, c7, Issue::ModelNotBin);
        push_when(&mut v, c8, Issue::TemperatureHigh);
        assert(Seq::<Issue>::empty() + when(c1, Issue::ModelMissing) =~= when(c1, Issue::ModelMissing));
        v
    }

    pub fn has_whisper_optimizations(&self) -> (b: bool)
        ensures b == whisper_tuned(*self),
    {
        self.whisper_threads > 0 || binary32::less(self.whisper_temperature_bits, F32_0_1)
    }

    /// The readiness score out of 100.
    pub fn score(&self, r: &Readiness) -> (s: u8)
        ensures s == score_of(*self, *r), s <= 100,
    {
        let mut s: u8 = 0;
        if r.model_present { s += 30; }
        if r.cli_present { s += 20; }
        if self.issues(r).len() == 0 { s += 20; }
        if self.substitutions.len() > 0 { s += 10; }
        if !str_eq(self.language.as_str(), "auto") { s += 5; }
        if self.beep_enabled { s += 5; }
        if self.has_whisper_optimizations() { s += 10; }
        s
    }

    pub fn score_label(&self, r: &Readiness) -> (l: &'static str)
        ensures l@ == score_label_of(score_of(*self, *r)),
    {
        let s = self.score(r);
        if 90 <= s && s <= 100 { "Excellent" }
        else if 70 <= s && s <= 89 { "Très bon" }
        else if 50 <= s && s <= 69 { "Bon" }
        else if 30 <= s && s <= 49 { "Basique" }
        else { "Incomplet" }
    }

    /// The points of each part of the score.
    pub fn score_breakdown(&self, r: &Readiness) -> (v: Vec<(&'static str, u8)>)
        ensures
            v@.len() == 7,
            v@[0].0@ == "Modèle présent"@ && v@[0].1 == if r.model_present { 30u8 } else { 0u8 },
            v@[1].0@ == "whisper-cli présent"@ && v@[1].1 == if r.cli_present { 20u8 } else { 0u8 },
            v@[2].0@ == "Config valide"@ && v@[2].1 == if issue_list(*self, *r).len() == 0 { 20u8 } else { 0u8 },
            v@[3].0@ == "Substitutions configurées"@ && v@[3].1 == if self.substitutions@.len() > 0 { 10u8 } else { 0u8 },
            v@[4].0@ == "Langue explicite"@ && v@[4].1 == if self.language@ != "auto"@ { 5u8 } else { 0u8 },
            v@[5].0@ == "Beep activé"@ && v@[5].1 == if self.beep_enabled { 5u8 } else { 0u8 },
            v@[6].0@ == "Whisper optimisé"@ && v@[6].1 == if whisper_tuned(*self) { 10u8 } else { 0u8 },
    {
        let mut v: Vec<(&'static str, u8)> = Vec::new();
        v.push(("Modèle présent", if r.model_present { 30 } else { 0 }));
        v.push(("whisper-cli présent", if r.cli_present { 20 } else { 0 }));
        v.push(("Config valide", if self.issues(r).len() == 0 { 20 } else { 0 }));
        v.push(("Substitutions configurées", if self.substitutions.len() > 0 { 10 } else { 0 }));
        v.push(("Langue explicite", if !str_eq(self.language.as_str(), "auto") { 5 } else { 0 }));
        v.push(("Beep activé", if self.beep_enabled { 5 } else { 0 }));
        v.push(("Whisper optimisé", if self.has_whisper_optimizations() { 10 } else { 0 }));
        v
    }

    /// The score lines: "  ✓ : 30/30pts" for points won, "  ✗ : 0/1pts"
    /// for points missed, one per criterion, one per line.
    pub fn score_breakdown_display(&self, r: &Readiness) -> (s: String)
        ensures
            s@ == crate::text::join(self.score_breakdown_spec_lines(*r), "\n"@),
    {
        let v = self.score_breakdown(r);
        let ghost lines = self.score_breakdown_spec_lines(*r);
        let mut s = String::new();
        let mut i: usize = 0;
        while i < v.len()
            invariant
                i <= v@.len(),
                v@.len() == 7,
                lines.len() == 7,
                forall|k: int| 0 <= k < 7 ==> (#[trigger] lines[k]) == breakdown_line(v@[k].1 as nat),
                s@ == crate::text::join(lines.take(i as int), "\n"@),
            decreases v@.len() - i,
        {
            proof {
                assert(lines.take(i as int + 1) == lines.take(i as int).push(lines[i as int]));
                crate::text::lemma_join_push(lines.take(i as int), "\n"@, lines[i as int]);
            }
            if i > 0 {
                push_str(&mut s, "\n");
            }
            let pts = v[i].1;
            push_str(&mut s, "  ");
            push_str(&mut s, if pts > 0 { "✓" } else { "✗" });
            push_str(&mut s, " : ");
            push_decimal(&mut s, pts as u64);
            push_str(&mut s, "/");
            push_decimal(&mut s, if pts > 1 { pts as u64 } else { 1 });
            push_str(&mut s, "pts");
            i += 1;
        }
        assert(lines.take(7) == lines);
        s
    }

    /// The lines of the score breakdown, from the points of each criterion.
    pub open spec fn score_breakdown_spec_lines(&self, r: Readiness) -> Seq<Seq<char>> {
        seq![
            breakdown_line(if r.model_present { 30 } else { 0 }),
            breakdown_line(if r.cli_present { 20 } else { 0 }),
            breakdown_line(if issue_list(*self, r).len() == 0 { 20 } else { 0 }),
            breakdown_line(if self.substitutions@.len() > 0 { 10 } else { 0 }),
            breakdown_line(if self.language@ != "auto"@ { 5 } else { 0 }),
            breakdown_line(if self.beep_enabled { 5 } else { 0 }),
            breakdown_line(if whisper_tuned(*self) { 10 } else { 0 }),
        ]
    }

    pub fn is_production_ready(&self, r: &Readiness) -> (b: bool)
        ensures b == (r.model_present && r.cli_present && issue_list(*self, *r).len() == 0),
    {
        self.is_fully_ready(r) && self.issues(r).len() == 0
    }

    pub fn is_production_config(&self, r: &Readiness) -> (b: bool)
        ensures b == (r.model_present && r.cli_present && score_of(*self, *r) >= 80),
    {
        self.is_fully_ready(r) && self.score(r) >= 80
    }

    /// The file name of the model ("?" when the path has none).
    pub fn model_name(&self) -> (n: String)
        ensures names_model(self.model_path@, n@),
    {
        match path_file_name(self.model_path.as_str()) {
            Some(n) => n,
            None => owned("?"),
        }
    }

    pub fn whisper_speed_label(&self) -> (r: &'static str)
        ensures exists|n: Seq<char>| names_model(self.model_path@, n) && r@ == speed_label(n),
    {
        let n = self.model_name();
        speed_label_for(n.as_str())
    }

    pub fn model_size_mb_estimate(&self) -> (r: u32)
        ensures exists|n: Seq<char>| names_model(self.model_path@, n) && r == size_estimate(n),
    {
        let n = self.model_name();
        size_estimate_for(n.as_str())
    }

    /// Disk space needed: the model and 100 MB more.
    pub fn min_disk_space_mb(&self) -> (r: u32)
        ensures exists|n: Seq<char>| names_model(self.model_path@, n) && r == size_estimate(n) + 100,
    {
        self.model_size_mb_estimate() + 100
    }

    pub fn uses_large_model(&self) -> (b: bool)
        ensures exists|n: Seq<char>| names_model(self.model_path@, n) && b == contains(n, "large"@),
    {
        let n = self.model_name();
        contains_str(n.as_str(), "large")
    }

    pub fn uses_medium_model(&self) -> (b: bool)
        ensures exists|n: Seq<char>| names_model(self.model_path@, n) && b == contains(n, "medium"@),
    {
        let n = self.model_name();
        contains_str(n.as_str(), "medium")
    }
}

/// The profile named by the typography, capitalisation and media settings.
/// One line of the score breakdown for a criterion worth `pts` points.
pub open spec fn breakdown_line(pts: nat) -> Seq<char> {
    "  "@ + (if pts > 0 { "✓"@ } else { "✗"@ }) + " : "@ + decimal(pts) + "/"@
        + decimal(if pts > 1 { pts } else { 1 }) + "pts"@
}

pub open spec fn profile_of(c: Config) -> Seq<char> {
    if c.french_typography && c.auto_capitalize && !c.pause_media { "Français standard"@ }
    else if c.french_typography && c.auto_capitalize && c.pause_media { "Français professionnel"@ }
    else if !c.french_typography && c.auto_capitalize && !c.pause_media { "Standard"@ }
    else if !c.french_typography && !c.auto_capitalize && !c.pause_media { "Minimal"@ }
    else { "Personnalisé"@ }
}

/// The level of the silence threshold.
pub open spec fn silence_label(t: u32) -> Seq<char> {
    if f32_lt(t, F32_0_001) { "désactivé"@ }
    else if f32_lt(t, F32_0_003) { "très faible"@ }
    else if f32_lt(t, F32_0_008) { "normal"@ }
    else if f32_lt(t, F32_0_02) { "élevé"@ }
    else { "très élevé"@ }
}

/// The sensitivity class of the silence threshold.
pub open spec fn silence_class(t: u32) -> Seq<char> {
    if f32_lt(t, F32_0_002) { "très sensible"@ }
    else if f32_lt(t, F32_0_01) { "sensible"@ }
    else if f32_lt(t, F32_0_05) { "normal"@ }
    else { "sourd"@ }
}

/// The parts of the injection mode, in order.
pub open spec fn mode_parts(c: Config) -> Seq<Seq<char>> {
    (if c.auto_capitalize { seq!["majuscule"@] } else { seq![] })
    + (if c.french_typography { seq!["typo_fr"@] } else { seq![] })
    + (if c.prefix_space { seq!["espace_avant"@] } else { seq![] })
    + (if c.auto_enter { seq!["auto_enter"@] } else { seq![] })
}

pub open spec fn hotkey_text(h: HotkeyConfig) -> Seq<char> {
    (if h.ctrl { "Ctrl+"@ } else { ""@ }) + (if h.alt { "Alt+"@ } else { ""@ })
        + (if h.shift { "Shift+"@ } else { ""@ }) + h.key@
}

/// The combination as text, modifiers first: "Ctrl+Alt+Shift+F9".
pub fn hotkey_combo(h: &HotkeyConfig) -> (r: String)
    ensures r@ == hotkey_text(*h),
{
    let mut r = String::new();
    if h.ctrl { push_str(&mut r, "Ctrl+"); }
    if h.alt { push_str(&mut r, "Alt+"); }
    if h.shift { push_str(&mut r, "Shift+"); }
    push_str(&mut r, h.key.as_str());
    proof { reveal_strlit(""); }
    assert(r@ =~= hotkey_text(*h));
    r
}

pub open spec fn beep_text(c: Config) -> Seq<char> {
    if !c.beep_enabled { "désactivé"@ }
    else {
        decimal(c.beep_start_freq as nat) + "Hz/"@ + decimal(c.beep_end_freq as nat) + "Hz "@
            + decimal(c.beep_duration_ms as nat) + "ms"@
    }
}

pub open spec fn language_name(l: Seq<char>) -> Seq<char> {
    if l == "auto"@ { "Auto-détection"@ }
    else if l == "fr"@ { "Français"@ }
    else if l == "en"@ { "English"@ }
    else if l == "de"@ { "Deutsch"@ }
    else if l == "es"@ { "Español"@ }
    else if l == "it"@ { "Italiano"@ }
    else if l == "pt"@ { "Português"@ }
    else if l == "ja"@ { "日本語"@ }
    else if l == "zh"@ { "中文"@ }
    else if l == "ko"@ { "한국어"@ }
    else { l }
}

pub open spec fn duration_text(c: Config) -> Seq<char> {
    decimal(c.min_record_ms as nat) + "ms–"@ + decimal(c.max_record_secs as nat) + "s"@
}

/// Threads whisper runs with: the setting, or when it is 0 the available
/// parallelism up to 8 (4 when unknown).
pub open spec fn threads_of(c: Config, parallelism: Option<usize>) -> nat {
    if c.whisper_threads == 0 {
        match parallelism { Some(n) => if n < 8 { n as nat } else { 8 }, None => 4 }
    } else {
        c.whisper_threads as nat
    }
}

impl Config {
    pub fn profile_name(&self) -> (r: &'static str)
        ensures r@ == profile_of(*self),
    {
        if self.french_typography && self.auto_capitalize && !self.pause_media { "Français standard" }
        else if self.french_typography && self.auto_capitalize && self.pause_media { "Français professionnel" }
        else if !self.french_typography && self.auto_capitalize && !self.pause_media { "Standard" }
        else if !self.french_typography && !self.auto_capitalize && !self.pause_media { "Minimal" }
        else { "Personnalisé" }
    }

    pub fn silence_level_label(&self) -> (r: &'static str)
        ensures r@ == silence_label(self.silence_threshold_bits),
    {
        let t = self.silence_threshold_bits;
        if binary32::less(t, F32_0_001) { "désactivé" }
        else if binary32::less(t, F32_0_003) { "très faible" }
        else if binary32::less(t, F32_0_008) { "normal" }
        else if binary32::less(t, F32_0_02) { "élevé" }
        else { "très élevé" }
    }

    pub fn silence_category(&self) -> (r: &'static str)
        ensures r@ == silence_class(self.silence_threshold_bits),
    {
        let t = self.silence_threshold_bits;
        if binary32::less(t, F32_0_002) { "très sensible" }
        else if binary32::less(t, F32_0_01) { "sensible" }
        else if binary32::less(t, F32_0_05) { "normal" }
        else { "sourd" }
    }

    pub fn record_duration_label(&self) -> (r: String)
        ensures r@ == duration_text(*self),
    {
        let mut r = String::new();
        push_decimal(&mut r, self.min_record_ms);
        push_str(&mut r, "ms–");
        push_decimal(&mut r, self.max_record_secs);
        push_str(&mut r, "s");
        r
    }

    /// The injection options in effect joined by `+`, or "minimal".
    pub fn inject_mode_label(&self) -> (r: String)
        ensures r@ == if mode_parts(*self).len() == 0 { "minimal"@ } else { crate::text::join(mode_parts(*self), "+"@) },
    {
        let mut parts: Vec<&'static str> = Vec::new();
        let ghost mut ps: Seq<Seq<char>> = seq![];
        if self.auto_capitalize { parts.push("majuscule"); proof { ps = ps.push("majuscule"@); } }
        if self.french_typography { parts.push("typo_fr"); proof { ps = ps.push("typo_fr"@); } }
        if self.prefix_space { parts.push("espace_avant"); proof { ps = ps.push("espace_avant"@); } }
        if self.auto_enter { parts.push("auto_enter"); proof { ps = ps.push("auto_enter"@); } }
        assert(ps =~= mode_parts(*self));
        if parts.len() == 0 {
            return owned("minimal");
        }
        join_strs(&parts, "+", Ghost(ps))
    }

    pub fn hotkey_string(&self) -> (r: String)
        ensures r@ == hotkey_text(self.hotkey),
    {
        hotkey_combo(&self.hotkey)
    }

    pub fn beep_description(&self) -> (r: String)
        ensures r@ == beep_text(*self),
    {
        if !self.beep_enabled {
            return owned("désactivé");
        }
        let mut r = String::new();
        push_decimal(&mut r, self.beep_start_freq as u64);
        push_str(&mut r, "Hz/");
        push_decimal(&mut r, self.beep_end_freq as u64);
        push_str(&mut r, "Hz ");
        push_decimal(&mut r, self.beep_duration_ms as u64);
        push_str(&mut r, "ms");
        r
    }

    pub fn language_display(&self) -> (r: String)
        ensures r@ == language_name(self.language@),
    {
        let l = self.language.as_str();
        if str_eq(l, "auto") { owned("Auto-détection") }
        else if str_eq(l, "fr") { owned("Français") }
        else if str_eq(l, "en") { owned("English") }
        else if str_eq(l, "de") { owned("Deutsch") }
        else if str_eq(l, "es") { owned("Español") }
        else if str_eq(l, "it") { owned("Italiano") }
        else if str_eq(l, "pt") { owned("Português") }
        else if str_eq(l, "ja") { owned("日本語") }
        else if str_eq(l, "zh") { owned("中文") }
        else if str_eq(l, "ko") { owned("한국어") }
        else { owned(l) }
    }

    /// `[profile] language | model | hotkey:... | silence:... | beep:...`.
    pub fn description(&self) -> (r: String)
        ensures
            exists|n: Seq<char>| names_model(self.model_path@, n) && r@ == description_text(*self, n),
    {
        let n = self.model_name();
        let mut r = owned("[");
        push_str(&mut r, self.profile_name());
        push_str(&mut r, "] ");
        push_str(&mut r, self.language_display().as_str());
        push_str(&mut r, " | ");
        push_str(&mut r, n.as_str());
        push_str(&mut r, " | hotkey:");
        push_str(&mut r, self.hotkey_string().as_str());
        push_str(&mut r, " | silence:");
        push_str(&mut r, self.silence_level_label());
        push_str(&mut r, " | beep:");
        push_str(&mut r, self.beep_description().as_str());
        assert(r@ == description_text(*self, n@));
        r
    }

    pub fn threads_display(&self, parallelism: Option<usize>) -> (r: String)
        ensures
            r@ == if self.whisper_threads == 0 {
                "auto (max "@ + decimal(threads_of(*self, parallelism)) + ")"@
            } else {
                decimal(self.whisper_threads as nat)
            },
    {
        if self.whisper_threads == 0 {
            let n = self.effective_threads(parallelism);
            let mut r = owned("auto (max ");
            push_decimal(&mut r, n as u64);
            push_str(&mut r, ")");
            r
        } else {
            crate::text::u64_to_decimal(self.whisper_threads as u64)
        }
    }

    /// The threads whisper runs with, given the available parallelism.
    pub fn effective_threads(&self, parallelism: Option<usize>) -> (n: usize)
        ensures n == threads_of(*self, parallelism),
    {
        if self.whisper_threads == 0 {
            match parallelism {
                Some(p) => if p < 8 { p } else { 8 },
                None => 4,
            }
        } else {
            self.whisper_threads as usize
        }
    }

    pub fn thread_count_display(&self) -> (r: String)
        ensures r@ == if self.whisper_threads == 0 { "auto"@ } else { decimal(self.whisper_threads as nat) + " threads"@ },
    {
        if self.whisper_threads == 0 {
            owned("auto")
        } else {
            let mut r = crate::text::u64_to_decimal(self.whisper_threads as u64);
            push_str(&mut r, " threads");
            r
        }
    }
}

/// Joins string slices with a separator.
fn join_strs(parts: &Vec<&'static str>, sep: &str, Ghost(ps): Ghost<Seq<Seq<char>>>) -> (r: String)
    requires
        ps.len() == parts@.len(),
        forall|i: int| 0 <= i < ps.len() ==> ps[i] == (#[trigger] parts@[i])@,
    ensures r@ == crate::text::join(ps, sep@),
{
    let mut r = String::new();
    let mut i: usize = 0;
    while i < parts.len()
        invariant
            i <= parts@.len(),
            ps.len() == parts@.len(),
            forall|k: int| 0 <= k < ps.len() ==> ps[k] == (#[trigger] parts@[k])@,
            r@ == crate::text::join(ps.take(i as int), sep@),
        decreases parts@.len() - i,
    {
        proof {
            assert(ps.take(i as int + 1) == ps.take(i as int).push(ps[i as int]));
            crate::text::lemma_join_push(ps.take(i as int), sep@, ps[i as int]);
        }
        if i > 0 {
            push_str(&mut r, sep);
        }
        push_str(&mut r, parts[i]);
        i += 1;
    }
    assert(ps.take(parts@.len() as int) == ps);
    r
}

impl Config {
    pub fn set_prefix_space(&mut self, val: bool) -> (r: &mut Self)
        ensures
            *r == (Config { prefix_space: val, ..*old(self) }),
            *final(self) == *final(r),
    {
        self.prefix_space = val;
        self
    }
}

/// Equal in every setting but the log level.
pub open spec fn same_but_log_level(a: Config, b: Config) -> bool {
    &&& a.config_version == b.config_version
    &&& a.model_path == b.model_path
    &&& a.language == b.language
    &&& a.hotkey == b.hotkey
    &&& a.auto_enter == b.auto_enter
    &&& a.french_typography == b.french_typography
    &&& a.auto_capitalize == b.auto_capitalize
    &&& a.substitutions == b.substitutions
    &&& a.microphone == b.microphone
    &&& a.max_record_secs == b.max_record_secs
    &&& a.min_record_ms == b.min_record_ms
    &&& a.max_history == b.max_history
    &&& a.beep_enabled == b.beep_enabled
    &&& a.silence_threshold_bits == b.silence_threshold_bits
    &&& a.pause_media == b.pause_media
    &&& a.prefix_space == b.prefix_space
    &&& a.whisper_threads == b.whisper_threads
    &&& a.inject_delay_ms == b.inject_delay_ms
    &&& a.whisper_no_speech == b.whisper_no_speech
    &&& a.whisper_temperature_bits == b.whisper_temperature_bits
    &&& a.beep_start_freq == b.beep_start_freq
    &&& a.beep_end_freq == b.beep_end_freq
    &&& a.beep_duration_ms == b.beep_duration_ms
}

/// Equal in every setting but the language and French typography.
pub open spec fn same_but_language(a: Config, b: Config) -> bool {
    &&& a.config_version == b.config_version
    &&& a.model_path == b.model_path
    &&& a.hotkey == b.hotkey
    &&& a.auto_enter == b.auto_enter
    &&& a.auto_capitalize == b.auto_capitalize
    &&& a.substitutions == b.substitutions
    &&& a.microphone == b.microphone
    &&& a.max_record_secs == b.max_record_secs
    &&& a.min_record_ms == b.min_record_ms
    &&& a.max_history == b.max_history
    &&& a.beep_enabled == b.beep_enabled
    &&& a.silence_threshold_bits == b.silence_threshold_bits
    &&& a.pause_media == b.pause_media
    &&& a.prefix_space == b.prefix_space
    &&& a.whisper_threads == b.whisper_threads
    &&& a.inject_delay_ms == b.inject_delay_ms
    &&& a.whisper_no_speech == b.whisper_no_speech
    &&& a.whisper_temperature_bits == b.whisper_temperature_bits
    &&& a.beep_start_freq == b.beep_start_freq
    &&& a.beep_end_freq == b.beep_end_freq
    &&& a.beep_duration_ms == b.beep_duration_ms
    &&& a.log_level == b.log_level
}

/// Equal in every setting but the hotkey.
pub open spec fn same_but_hotkey(a: Config, b: Config) -> bool {
    &&& a.config_version == b.config_version
    &&& a.model_path == b.model_path
    &&& a.language == b.language
    &&& a.auto_enter == b.auto_enter
    &&& a.french_typography == b.french_typography
    &&& a.auto_capitalize == b.auto_capitalize
    &&& a.substitutions == b.substitutions
    &&& a.microphone == b.microphone
    &&& a.max_record_secs == b.max_record_secs
    &&& a.min_record_ms == b.min_record_ms
    &&& a.max_history == b.max_history
    &&& a.beep_enabled == b.beep_enabled
    &&& a.silence_threshold_bits == b.silence_threshold_bits
    &&& a.pause_media == b.pause_media
    &&& a.prefix_space == b.prefix_space
    &&& a.whisper_threads == b.whisper_threads
    &&& a.inject_delay_ms == b.inject_delay_ms
    &&& a.whisper_no_speech == b.whisper_no_speech
    &&& a.whisper_temperature_bits == b.whisper_temperature_bits
    &&& a.beep_start_freq == b.beep_start_freq
    &&& a.beep_end_freq == b.beep_end_freq
    &&& a.beep_duration_ms == b.beep_duration_ms
    &&& a.log_level == b.log_level
}

/// Equal in every setting but the rules.
pub open spec fn same_but_rules(a: Config, b: Config) -> bool {
    &&& a.config_version == b.config_version
    &&& a.model_path == b.model_path
    &&& a.language == b.language
    &&& a.hotkey == b.hotkey
    &&& a.auto_enter == b.auto_enter
    &&& a.french_typography == b.french_typography
    &&& a.auto_capitalize == b.auto_capitalize
    &&& a.microphone == b.microphone
    &&& a.max_record_secs == b.max_record_secs
    &&& a.min_record_ms == b.min_record_ms
    &&& a.max_history == b.max_history
    &&& a.beep_enabled == b.beep_enabled
    &&& a.silence_threshold_bits == b.silence_threshold_bits
    &&& a.pause_media == b.pause_media
    &&& a.prefix_space == b.prefix_space
    &&& a.whisper_threads == b.whisper_threads
    &&& a.inject_delay_ms == b.inject_delay_ms
    &&& a.whisper_no_speech == b.whisper_no_speech
    &&& a.whisper_temperature_bits == b.whisper_temperature_bits
    &&& a.beep_start_freq == b.beep_start_freq
    &&& a.beep_end_freq == b.beep_end_freq
    &&& a.beep_duration_ms == b.beep_duration_ms
    &&& a.log_level == b.log_level
}

impl Config {
    pub fn set_no_speech(&mut self, val: bool) -> (r: &mut Self)
        ensures
            *r == (Config { whisper_no_speech: val, ..*old(self) }),
            *final(self) == *final(r),
    {
        self.whisper_no_speech = val;
        self
    }

    pub fn set_auto_capitalize(&mut self, val: bool) -> (r: &mut Self)
        ensures
            *r == (Config { auto_capitalize: val, ..*old(self) }),
            *final(self) == *final(r),
    {
        self.auto_capitalize = val;
        self
    }

    pub fn set_auto_enter(&mut self, val: bool) -> (r: &mut Self)
        ensures
            *r == (Config { auto_enter: val, ..*old(self) }),
            *final(self) == *final(r),
    {
        self.auto_enter = val;
        self
    }

    pub fn set_french_typography(&mut self, val: bool) -> (r: &mut Self)
        ensures
            *r == (Config { french_typography: val, ..*old(self) }),
            *final(self) == *final(r),
    {
        self.french_typography = val;
        self
    }

    pub fn set_inject_delay(&mut self, ms: u64) -> (r: &mut Self)
        ensures
            *r == (Config { inject_delay_ms: if ms < 1000 { ms } else { 1000 }, ..*old(self) }),
            *final(self) == *final(r),
    {
        self.inject_delay_ms = if ms < 1000 { ms } else { 1000 };
        self
    }

    pub fn set_max_history(&mut self, max: usize) -> (r: &mut Self)
        ensures
            *r == (Config { max_history: if max < 1 { 1 } else if max > 100 { 100 } else { max }, ..*old(self) }),
            *final(self) == *final(r),
    {
        self.max_history = if max < 1 { 1 } else if max > 100 { 100 } else { max };
        self
    }

    pub fn set_max_record_secs(&mut self, secs: u64) -> (r: &mut Self)
        ensures
            *r == (Config { max_record_secs: if secs < 5 { 5 } else if secs > 300 { 300 } else { secs }, ..*old(self) }),
            *final(self) == *final(r),
    {
        self.max_record_secs = if secs < 5 { 5 } else if secs > 300 { 300 } else { secs };
        self
    }

    pub fn set_threads(&mut self, threads: u32) -> (r: &mut Self)
        ensures
            *r == (Config { whisper_threads: if threads < 32 { threads } else { 32 }, ..*old(self) }),
            *final(self) == *final(r),
    {
        self.whisper_threads = if threads < 32 { threads } else { 32 };
        self
    }

    pub fn set_whisper_temperature(&mut self, temp_bits: u32) -> (r: &mut Self)
        ensures
            *r == (Config { whisper_temperature_bits: clamp_unit(temp_bits), ..*old(self) }),
            *final(self) == *final(r),
    {
        self.whisper_temperature_bits = clamp_to_unit(temp_bits);
        self
    }

    pub fn set_silence_threshold(&mut self, threshold_bits: u32) -> (r: &mut Self)
        ensures
            *r == (Config { silence_threshold_bits: clamp_unit(threshold_bits), ..*old(self) }),
            *final(self) == *final(r),
    {
        self.silence_threshold_bits = clamp_to_unit(threshold_bits);
        self
    }

    pub fn set_model(&mut self, model_path: String) -> (r: &mut Self)
        ensures
            *r == (Config { model_path: model_path, ..*old(self) }),
            *final(self) == *final(r),
    {
        self.model_path = model_path;
        self
    }

    pub fn set_microphone(&mut self, mic: Option<String>) -> (r: &mut Self)
        ensures
            *r == (Config { microphone: mic, ..*old(self) }),
            *final(self) == *final(r),
    {
        self.microphone = mic;
        self
    }

    pub fn toggle_beep(&mut self) -> (r: &mut Self)
        ensures
            *r == (Config { beep_enabled: !old(self).beep_enabled, ..*old(self) }),
            *final(self) == *final(r),
    {
        self.beep_enabled = !self.beep_enabled;
        self
    }

    pub fn toggle_pause_media(&mut self) -> (r: &mut Self)
        ensures
            *r == (Config { pause_media: !old(self).pause_media, ..*old(self) }),
            *final(self) == *final(r),
    {
        self.pause_media = !self.pause_media;
        self
    }

    /// Frequencies clamped to 100–20000 Hz, duration to 1–2000 ms.
    pub fn set_beep_freqs(&mut self, start: u32, end: u32, duration_ms: u32) -> (r: &mut Self)
        ensures
            *r == (Config {
                beep_start_freq: if start < 100 { 100 } else if start > 20000 { 20000 } else { start },
                beep_end_freq: if end < 100 { 100 } else if end > 20000 { 20000 } else { end },
                beep_duration_ms: if duration_ms < 1 { 1 } else if duration_ms > 2000 { 2000 } else { duration_ms },
                ..*old(self)
            }),
            *final(self) == *final(r),
    {
        self.beep_start_freq = if start < 100 { 100 } else if start > 20000 { 20000 } else { start };
        self.beep_end_freq = if end < 100 { 100 } else if end > 20000 { 20000 } else { end };
        self.beep_duration_ms = if duration_ms < 1 { 1 } else if duration_ms > 2000 { 2000 } else { duration_ms };
        self
    }

    /// Sets the log level when it is one of the known levels; otherwise
    /// leaves the settings as they are.
    pub fn set_log_level(&mut self, level: &str) -> (r: &mut Self)
        ensures
            is_log_level(level@) ==> r.log_level@ == level@ && same_but_log_level(*r, *old(self)),
            !is_log_level(level@) ==> *r == *old(self),
            *final(self) == *final(r),
    {
        if valid_log_level(level) {
            self.log_level = owned(level);
        }
        self
    }

    pub fn set_log_debug(&mut self) -> (r: &mut Self)
        ensures r.log_level@ == "debug"@ && same_but_log_level(*r, *old(self)), *final(self) == *final(r),
    {
        self.log_level = owned("debug");
        self
    }

    pub fn set_log_info(&mut self) -> (r: &mut Self)
        ensures r.log_level@ == "info"@ && same_but_log_level(*r, *old(self)), *final(self) == *final(r),
    {
        self.log_level = owned("info");
        self
    }

    /// Sets the language; French typography follows it (on for "fr" only).
    pub fn set_language(&mut self, lang: &str) -> (r: &mut Self)
        ensures
            r.language@ == lang@,
            r.french_typography == (lang@ == "fr"@),
            same_but_language(*r, *old(self)),
            *final(self) == *final(r),
    {
        self.language = owned(lang);
        self.french_typography = str_eq(lang, "fr");
        self
    }

    pub fn set_language_auto(&mut self) -> (r: &mut Self)
        ensures
            r.language@ == "auto"@,
            !r.french_typography,
            same_but_language(*r, *old(self)),
            *final(self) == *final(r),
    {
        self.language = owned("auto");
        self.french_typography = false;
        self
    }

    pub fn set_hotkey(&mut self, key: &str, ctrl: bool, alt: bool, shift: bool) -> (r: &mut Self)
        ensures
            r.hotkey.key@ == key@ && r.hotkey.ctrl == ctrl && r.hotkey.alt == alt && r.hotkey.shift == shift,
            same_but_hotkey(*r, *old(self)),
            *final(self) == *final(r),
    {
        self.hotkey.key = owned(key);
        self.hotkey.ctrl = ctrl;
        self.hotkey.alt = alt;
        self.hotkey.shift = shift;
        self
    }
}

/// Some rule of `rules` rewrites `from`.
pub open spec fn has_rule_for(rules: Seq<Substitution>, from: Seq<char>) -> bool {
    exists|k: int| 0 <= k < rules.len() && (#[trigger] rules[k]).from@ == from
}

/// The rules of `acc`, then each rule of `other` whose `from` is not yet
/// rewritten, in order.
pub open spec fn merged_rules(acc: Seq<Substitution>, other: Seq<Substitution>) -> Seq<Substitution>
    decreases other.len(),
{
    if other.len() == 0 {
        acc
    } else {
        let m = merged_rules(acc, other.drop_last());
        if has_rule_for(m, other.last().from@) { m } else { m.push(other.last()) }
    }
}

/// The index of the first rule rewriting `from`, if any.
fn rule_index(rules: &Vec<Substitution>, from: &str) -> (r: Option<usize>)
    ensures
        match r {
            Some(k) => k < rules@.len() && rules@[k as int].from@ == from@
                && forall|j: int| 0 <= j < k ==> (#[trigger] rules@[j]).from@ != from@,
            None => !has_rule_for(rules@, from@),
        },
{
    let mut i: usize = 0;
    while i < rules.len()
        invariant
            i <= rules@.len(),
            forall|j: int| 0 <= j < i ==> (#[trigger] rules@[j]).from@ != from@,
        decreases rules@.len() - i,
    {
        if str_eq(rules[i].from.as_str(), from) {
            return Some(i);
        }
        i += 1;
    }
    None
}

impl Config {
    pub fn substitution_count(&self) -> (n: usize)
        ensures n == self.substitutions@.len(),
    {
        self.substitutions.len()
    }

    pub fn substitutions_count(&self) -> (n: usize)
        ensures n == self.substitutions@.len(),
    {
        self.substitutions.len()
    }

    pub fn has_substitutions(&self) -> (b: bool)
        ensures b == (self.substitutions@.len() > 0),
    {
        self.substitutions.len() > 0
    }

    /// Applies the rules to a transcription (see `substitution::apply`).
    pub fn apply_substitutions(&self, text: &str) -> (r: String)
        ensures r@ == crate::substitution::substituted(self.substitutions@, text@),
    {
        crate::substitution::apply(self.substitutions.as_slice(), text)
    }

    /// Adds a rule unless `from` is empty or already rewritten.
    pub fn add_substitution(&mut self, from: &str, to: &str, case_insensitive: bool)
        ensures
            same_but_rules(*final(self), *old(self)),
            if from@.len() > 0 && !has_rule_for(old(self).substitutions@, from@) {
                &&& final(self).substitutions@.len() == old(self).substitutions@.len() + 1
                &&& final(self).substitutions@.drop_last() == old(self).substitutions@
                &&& final(self).substitutions@.last().from@ == from@
                &&& final(self).substitutions@.last().to@ == to@
                &&& final(self).substitutions@.last().case_insensitive == case_insensitive
            } else {
                final(self).substitutions@ == old(self).substitutions@
            },
    {
        if !from.is_empty() && rule_index(&self.substitutions, from).is_none() {
            self.substitutions.push(Substitution { from: owned(from), to: owned(to), case_insensitive });
        }
    }

    /// Removes every rule rewriting `from`.
    pub fn remove_substitution(&mut self, from: &str)
        ensures
            same_but_rules(*final(self), *old(self)),
            final(self).substitutions@ == old(self).substitutions@.filter(|r: Substitution| r.from@ != from@),
    {
        let ghost pred = |r: Substitution| r.from@ != from@;
        let mut kept: Vec<Substitution> = Vec::new();
        let mut i: usize = 0;
        while i < self.substitutions.len()
            invariant
                i <= self.substitutions@.len(),
                kept@ == self.substitutions@.take(i as int).filter(pred),
                pred == (|r: Substitution| r.from@ != from@),
            decreases self.substitutions@.len() - i,
        {
            proof {
                reveal_with_fuel(Seq::filter, 1);
                let t = self.substitutions@.take(i as int + 1);
                assert(t.drop_last() == self.substitutions@.take(i as int));
                assert(t.last() == self.substitutions@[i as int]);
            }
            if !str_eq(self.substitutions[i].from.as_str(), from) {
                kept.push(self.substitutions[i].duplicate());
            }
            i += 1;
        }
        assert(self.substitutions@.take(self.substitutions@.len() as int) == self.substitutions@);
        self.substitutions = kept;
    }

    /// Removes every rule rewriting `from`; tells whether one was removed.
    pub fn remove_substitution_by_from(&mut self, from: &str) -> (removed: bool)
        ensures
            same_but_rules(*final(self), *old(self)),
            final(self).substitutions@ == old(self).substitutions@.filter(|r: Substitution| r.from@ != from@),
            removed == (final(self).substitutions@.len() < old(self).substitutions@.len()),
    {
        let before = self.substitutions.len();
        self.remove_substitution(from);
        self.substitutions.len() < before
    }

    pub fn clear_substitutions(&mut self)
        ensures
            same_but_rules(*final(self), *old(self)),
            final(self).substitutions@.len() == 0,
    {
        self.substitutions = Vec::new();
    }

    /// The index of the first rule rewriting `from`.
    pub fn substitution_index(&self, from: &str) -> (r: Option<usize>)
        ensures
            match r {
                Some(k) => k < self.substitutions@.len() && self.substitutions@[k as int].from@ == from@
                    && forall|j: int| 0 <= j < k ==> (#[trigger] self.substitutions@[j]).from@ != from@,
                None => !has_rule_for(self.substitutions@, from@),
            },
    {
        rule_index(&self.substitutions, from)
    }

    /// The first rule rewriting `from`.
    pub fn find_substitution(&self, from: &str) -> (r: Option<&Substitution>)
        ensures
            match r {
                Some(s) => exists|k: int| 0 <= k < self.substitutions@.len() && *s == self.substitutions@[k]
                    && s.from@ == from@ && forall|j: int| 0 <= j < k ==> (#[trigger] self.substitutions@[j]).from@ != from@,
                None => !has_rule_for(self.substitutions@, from@),
            },
    {
        match rule_index(&self.substitutions, from) {
            Some(k) => Some(&self.substitutions[k]),
            None => None,
        }
    }

    /// Adds each rule of `other` whose `from` is not yet rewritten.
    pub fn merge_substitutions_from(&mut self, other: &Config)
        ensures
            same_but_rules(*final(self), *old(self)),
            final(self).substitutions@ == merged_rules(old(self).substitutions@, other.substitutions@),
    {
        let mut i: usize = 0;
        let ghost start = self.substitutions@;
        while i < other.substitutions.len()
            invariant
                i <= other.substitutions@.len(),
                self.substitutions@ == merged_rules(start, other.substitutions@.take(i as int)),
                same_but_rules(*self, *old(self)),
                start == old(self).substitutions@,
            decreases other.substitutions@.len() - i,
        {
            proof {
                let t = other.substitutions@.take(i as int + 1);
                assert(t.drop_last() == other.substitutions@.take(i as int));
                assert(t.last() == other.substitutions@[i as int]);
            }
            if rule_index(&self.substitutions, other.substitutions[i].from.as_str()).is_none() {
                self.substitutions.push(other.substitutions[i].duplicate());
            }
            i += 1;
        }
        assert(other.substitutions@.take(other.substitutions@.len() as int) == other.substitutions@);
    }
}

impl Config {
    /// French, typography, capitals, beep, silence threshold 0.005.
    pub fn apply_profile_french_standard(&mut self) -> (r: &mut Self)
        ensures
            r.language@ == "fr"@,
            *r == (Config { french_typography: true, auto_capitalize: true, beep_enabled: true,
                silence_threshold_bits: DEFAULT_SILENCE_BITS, language: r.language, ..*old(self) }),
            *final(self) == *final(r),
    {
        self.language = owned("fr");
        self.french_typography = true;
        self.auto_capitalize = true;
        self.beep_enabled = true;
        self.silence_threshold_bits = DEFAULT_SILENCE_BITS;
        self
    }

    pub fn apply_profile_minimal(&mut self) -> (r: &mut Self)
        ensures
            *r == (Config { french_typography: false, auto_capitalize: false, beep_enabled: false, pause_media: false, ..*old(self) }),
            *final(self) == *final(r),
    {
        self.french_typography = false;
        self.auto_capitalize = false;
        self.beep_enabled = false;
        self.pause_media = false;
        self
    }

    /// Automatic threads, temperature 0, silence threshold 0.003, 200 ms minimum.
    pub fn apply_profile_performance(&mut self) -> (r: &mut Self)
        ensures
            *r == (Config { whisper_threads: 0, whisper_temperature_bits: binary32::ZERO,
                silence_threshold_bits: F32_0_003, min_record_ms: 200, ..*old(self) }),
            *final(self) == *final(r),
    {
        self.whisper_threads = 0;
        self.whisper_temperature_bits = binary32::ZERO;
        self.silence_threshold_bits = F32_0_003;
        self.min_record_ms = 200;
        self
    }

    pub fn apply_profile_quiet(&mut self) -> (r: &mut Self)
        ensures
            *r == (Config { beep_enabled: false, pause_media: false, auto_enter: false, prefix_space: false, ..*old(self) }),
            *final(self) == *final(r),
    {
        self.beep_enabled = false;
        self.pause_media = false;
        self.auto_enter = false;
        self.prefix_space = false;
        self
    }

    pub fn apply_profile_english(&mut self) -> (r: &mut Self)
        ensures
            r.language@ == "en"@,
            *r == (Config { french_typography: false, auto_capitalize: true, language: r.language, ..*old(self) }),
            *final(self) == *final(r),
    {
        self.language = owned("en");
        self.french_typography = false;
        self.auto_capitalize = true;
        self
    }

    /// Two-minute recordings, no Enter, no leading space, capitals, beep.
    pub fn apply_profile_dictaphone(&mut self) -> (r: &mut Self)
        ensures
            *r == (Config { max_record_secs: 120, auto_enter: false, prefix_space: false,
                auto_capitalize: true, beep_enabled: true, ..*old(self) }),
            *final(self) == *final(r),
    {
        self.max_record_secs = 120;
        self.auto_enter = false;
        self.prefix_space = false;
        self.auto_capitalize = true;
        self.beep_enabled = true;
        self
    }

    pub fn with_beep(self, enabled: bool) -> (r: Self)
        ensures r == (Config { beep_enabled: enabled, ..self }),
    {
        let mut c = self;
        c.beep_enabled = enabled;
        c
    }

    pub fn with_capitalize(self, enabled: bool) -> (r: Self)
        ensures r == (Config { auto_capitalize: enabled, ..self }),
    {
        let mut c = self;
        c.auto_capitalize = enabled;
        c
    }

    pub fn with_prefix_space(self, enabled: bool) -> (r: Self)
        ensures r == (Config { prefix_space: enabled, ..self }),
    {
        let mut c = self;
        c.prefix_space = enabled;
        c
    }

    pub fn with_auto_enter(self, enabled: bool) -> (r: Self)
        ensures r == (Config { auto_enter: enabled, ..self }),
    {
        let mut c = self;
        c.auto_enter = enabled;
        c
    }

    pub fn with_pause_media(self, enabled: bool) -> (r: Self)
        ensures r == (Config { pause_media: enabled, ..self }),
    {
        let mut c = self;
        c.pause_media = enabled;
        c
    }

    pub fn with_french_typography(self, enabled: bool) -> (r: Self)
        ensures r == (Config { french_typography: enabled, ..self }),
    {
        let mut c = self;
        c.french_typography = enabled;
        c
    }

    pub fn with_silence_threshold(self, v_bits: u32) -> (r: Self)
        ensures r == (Config { silence_threshold_bits: clamp_unit(v_bits), ..self }),
    {
        let mut c = self;
        c.silence_threshold_bits = clamp_to_unit(v_bits);
        c
    }

    pub fn with_max_history(self, n: usize) -> (r: Self)
        ensures r == (Config { max_history: if n < 1 { 1 } else if n > 1000 { 1000 } else { n }, ..self }),
    {
        let mut c = self;
        c.max_history = if n < 1 { 1 } else if n > 1000 { 1000 } else { n };
        c
    }

    pub fn with_microphone(self, mic: Option<String>) -> (r: Self)
        ensures r == (Config { microphone: mic, ..self }),
    {
        let mut c = self;
        c.microphone = mic;
        c
    }

    pub fn with_whisper_threads(self, n: u32) -> (r: Self)
        ensures r == (Config { whisper_threads: n, ..self }),
    {
        let mut c = self;
        c.whisper_threads = n;
        c
    }

    pub fn with_inject_delay(self, ms: u64) -> (r: Self)
        ensures r == (Config { inject_delay_ms: ms, ..self }),
    {
        let mut c = self;
        c.inject_delay_ms = ms;
        c
    }

    pub fn with_min_record_ms(self, ms: u64) -> (r: Self)
        ensures r == (Config { min_record_ms: ms, ..self }),
    {
        let mut c = self;
        c.min_record_ms = ms;
        c
    }

    /// The settings with another language; French typography follows it.
    pub fn with_language(self, lang: &str) -> (r: Self)
        ensures
            r.language@ == lang@,
            r.french_typography == (lang@ == "fr"@),
            same_but_language(r, self),
    {
        let mut c = self;
        c.language = owned(lang);
        c.french_typography = str_eq(lang, "fr");
        c
    }

    pub fn with_hotkey_key(self, key: &str) -> (r: Self)
        ensures
            r.hotkey.key@ == key@,
            r.hotkey.ctrl == self.hotkey.ctrl && r.hotkey.alt == self.hotkey.alt && r.hotkey.shift == self.hotkey.shift,
            same_but_hotkey(r, self),
    {
        let mut c = self;
        c.hotkey.key = owned(key);
        c
    }

    pub fn with_log_level(self, level: &str) -> (r: Self)
        ensures r.log_level@ == level@, same_but_log_level(r, self),
    {
        let mut c = self;
        c.log_level = owned(level);
        c
    }

    /// A copy with another language; French typography follows it.
    pub fn clone_with_language(&self, lang: &str) -> (r: Self)
        ensures
            r.language@ == lang@,
            r.french_typography == (lang@ == "fr"@),
            same_but_language_view(r, *self),
    {
        self.duplicate().with_language(lang)
    }

    /// A copy with another model file.
    pub fn clone_with_model(&self, path: String) -> (r: Self)
        ensures
            r.model_path == path,
            same(r, Config { model_path: path, ..*self }),
    {
        let mut c = self.duplicate();
        c.model_path = path;
        c
    }
}

/// Equal in every setting but the language and French typography, the rule
/// lists compared by their elements.
pub open spec fn same_but_language_view(a: Config, b: Config) -> bool {
    same(Config { language: b.language, french_typography: b.french_typography, ..a }, b)
}

impl Config {
    pub fn is_using_cuda(&self) -> (b: bool)
        ensures b == (false),
    {
        false
    }

    pub fn is_configured_for_french_dictation(&self) -> (b: bool)
        ensures b == (self.language@ == "fr"@ && self.french_typography && self.auto_capitalize),
    {
        str_eq(self.language.as_str(), "fr") && self.french_typography && self.auto_capitalize
    }

    pub fn compatible_with_french(&self) -> (b: bool)
        ensures b == (self.language@ == "fr"@ && self.french_typography && self.auto_capitalize),
    {
        str_eq(self.language.as_str(), "fr") && self.french_typography && self.auto_capitalize
    }

    pub fn is_compatible_with_version(&self, min_version: u32) -> (b: bool)
        ensures b == (self.config_version >= min_version),
    {
        self.config_version >= min_version
    }

    pub fn required_fields_present(&self) -> (b: bool)
        ensures b == (self.hotkey.key@.len() > 0 && self.language@.len() > 0),
    {
        !self.hotkey.key.as_str().is_empty() && !self.language.as_str().is_empty()
    }

    pub fn recording_is_limited(&self) -> (b: bool)
        ensures b == (self.max_record_secs < 60),
    {
        self.max_record_secs < 60
    }

    pub fn silence_detection_active(&self) -> (b: bool)
        ensures b == (f32_lt(F32_0_001, self.silence_threshold_bits)),
    {
        binary32::less(F32_0_001, self.silence_threshold_bits)
    }

    pub fn has_min_record_limit(&self) -> (b: bool)
        ensures b == (self.min_record_ms > 0),
    {
        self.min_record_ms > 0
    }

    pub fn is_history_full(&self, current_count: usize) -> (b: bool)
        ensures b == (current_count >= self.max_history),
    {
        current_count >= self.max_history
    }

    pub fn is_low_latency(&self) -> (b: bool)
        ensures b == (self.inject_delay_ms <= 60 && self.min_record_ms <= 200),
    {
        self.inject_delay_ms <= 60 && self.min_record_ms <= 200
    }

    pub fn is_verbose_mode(&self) -> (b: bool)
        ensures b == (self.log_level@ == "debug"@ || self.log_level@ == "trace"@),
    {
        str_eq(self.log_level.as_str(), "debug") || str_eq(self.log_level.as_str(), "trace")
    }

    pub fn is_debug_mode(&self) -> (b: bool)
        ensures b == (self.log_level@ == "debug"@ || self.log_level@ == "trace"@),
    {
        str_eq(self.log_level.as_str(), "debug") || str_eq(self.log_level.as_str(), "trace")
    }

    pub fn is_using_default_microphone(&self) -> (b: bool)
        ensures b == (self.microphone is None),
    {
        self.microphone.is_none()
    }

    pub fn is_beep_enabled(&self) -> (b: bool)
        ensures b == (self.beep_enabled),
    {
        self.beep_enabled
    }

    pub fn is_pause_media_enabled(&self) -> (b: bool)
        ensures b == (self.pause_media),
    {
        self.pause_media
    }

    pub fn is_prefix_space_enabled(&self) -> (b: bool)
        ensures b == (self.prefix_space),
    {
        self.prefix_space
    }

    pub fn is_auto_enter_enabled(&self) -> (b: bool)
        ensures b == (self.auto_enter),
    {
        self.auto_enter
    }

    pub fn is_french_typography_enabled(&self) -> (b: bool)
        ensures b == (self.french_typography),
    {
        self.french_typography
    }

    pub fn is_auto_capitalize_enabled(&self) -> (b: bool)
        ensures b == (self.auto_capitalize),
    {
        self.auto_capitalize
    }

    pub fn is_no_speech_enabled(&self) -> (b: bool)
        ensures b == (self.whisper_no_speech),
    {
        self.whisper_no_speech
    }

    pub fn is_hotkey_with_modifier(&self) -> (b: bool)
        ensures b == (self.hotkey.ctrl || self.hotkey.alt || self.hotkey.shift),
    {
        self.hotkey.ctrl || self.hotkey.alt || self.hotkey.shift
    }

    pub fn is_low_silence_threshold(&self) -> (b: bool)
        ensures b == (f32_lt(self.silence_threshold_bits, F32_0_003)),
    {
        binary32::less(self.silence_threshold_bits, F32_0_003)
    }

    pub fn is_high_silence_threshold(&self) -> (b: bool)
        ensures b == (f32_lt(F32_0_02, self.silence_threshold_bits)),
    {
        binary32::less(F32_0_02, self.silence_threshold_bits)
    }

    pub fn is_language(&self, code: &str) -> (b: bool)
        ensures b == (self.language@ == code@),
    {
        str_eq(self.language.as_str(), code)
    }

    pub fn is_history_large(&self) -> (b: bool)
        ensures b == (self.max_history >= 50),
    {
        self.max_history >= 50
    }

    pub fn inject_mode_is_keyboard(&self) -> (b: bool)
        ensures b == (true),
    {
        true
    }

    pub fn is_beep_disabled(&self) -> (b: bool)
        ensures b == (!self.beep_enabled),
    {
        !self.beep_enabled
    }

    pub fn is_auto_enter_disabled(&self) -> (b: bool)
        ensures b == (!self.auto_enter),
    {
        !self.auto_enter
    }

    pub fn has_long_record_limit(&self) -> (b: bool)
        ensures b == (self.max_record_secs > 60),
    {
        self.max_record_secs > 60
    }

    pub fn has_short_record_limit(&self) -> (b: bool)
        ensures b == (self.max_record_secs <= 10),
    {
        self.max_record_secs <= 10
    }

    pub fn is_whisper_temperature_zero(&self) -> (b: bool)
        ensures b == (f32_eq(self.whisper_temperature_bits, binary32::ZERO)),
    {
        binary32::equal(self.whisper_temperature_bits, binary32::ZERO)
    }

    pub fn inject_delay_is_fast(&self) -> (b: bool)
        ensures b == (self.inject_delay_ms <= 50),
    {
        self.inject_delay_ms <= 50
    }

    pub fn is_privacy_mode(&self) -> (b: bool)
        ensures b == (!self.beep_enabled && !self.pause_media),
    {
        !self.beep_enabled && !self.pause_media
    }

    pub fn is_minimal_config(&self) -> (b: bool)
        ensures b == (!self.beep_enabled && !self.french_typography && !self.auto_capitalize && !self.auto_enter),
    {
        !self.beep_enabled && !self.french_typography && !self.auto_capitalize && !self.auto_enter
    }

    pub fn is_maximal_config(&self) -> (b: bool)
        ensures b == (self.beep_enabled && self.french_typography && self.auto_capitalize && self.pause_media),
    {
        self.beep_enabled && self.french_typography && self.auto_capitalize && self.pause_media
    }

    pub fn is_same_language(&self, other: &Config) -> (b: bool)
        ensures b == (self.language@ == other.language@),
    {
        str_eq(self.language.as_str(), other.language.as_str())
    }

    pub fn is_same_hotkey(&self, other: &Config) -> (b: bool)
        ensures b == (self.hotkey.key@ == other.hotkey.key@ && self.hotkey.ctrl == other.hotkey.ctrl && self.hotkey.alt == other.hotkey.alt && self.hotkey.shift == other.hotkey.shift),
    {
        str_eq(self.hotkey.key.as_str(), other.hotkey.key.as_str()) && self.hotkey.ctrl == other.hotkey.ctrl && self.hotkey.alt == other.hotkey.alt && self.hotkey.shift == other.hotkey.shift
    }

    pub fn log_level_is_debug(&self) -> (b: bool)
        ensures b == (self.log_level@ == "debug"@),
    {
        str_eq(self.log_level.as_str(), "debug")
    }

    pub fn log_level_is_info(&self) -> (b: bool)
        ensures b == (self.log_level@ == "info"@),
    {
        str_eq(self.log_level.as_str(), "info")
    }

    pub fn log_level_is_warn(&self) -> (b: bool)
        ensures b == (self.log_level@ == "warn"@),
    {
        str_eq(self.log_level.as_str(), "warn")
    }

    pub fn is_hotkey_ctrl_only(&self) -> (b: bool)
        ensures b == (self.hotkey.ctrl && !self.hotkey.alt && !self.hotkey.shift),
    {
        self.hotkey.ctrl && !self.hotkey.alt && !self.hotkey.shift
    }

    pub fn is_hotkey_alt_only(&self) -> (b: bool)
        ensures b == (!self.hotkey.ctrl && self.hotkey.alt && !self.hotkey.shift),
    {
        !self.hotkey.ctrl && self.hotkey.alt && !self.hotkey.shift
    }

    pub fn is_hotkey_no_modifier(&self) -> (b: bool)
        ensures b == (!self.hotkey.ctrl && !self.hotkey.alt && !self.hotkey.shift),
    {
        !self.hotkey.ctrl && !self.hotkey.alt && !self.hotkey.shift
    }

    pub fn has_high_thread_count(&self) -> (b: bool)
        ensures b == (self.whisper_threads > 8),
    {
        self.whisper_threads > 8
    }

    pub fn has_custom_beep(&self) -> (b: bool)
        ensures b == (self.beep_start_freq != 800 || self.beep_end_freq != 600),
    {
        self.beep_start_freq != 800 || self.beep_end_freq != 600
    }

    pub fn is_french(&self) -> (b: bool)
        ensures b == (self.language@ == "fr"@),
    {
        str_eq(self.language.as_str(), "fr")
    }

    pub fn is_auto_detect(&self) -> (b: bool)
        ensures b == (self.language@ == "auto"@),
    {
        str_eq(self.language.as_str(), "auto")
    }

    pub fn is_english(&self) -> (b: bool)
        ensures b == (self.language@ == "en"@),
    {
        str_eq(self.language.as_str(), "en")
    }

    pub fn is_german(&self) -> (b: bool)
        ensures b == (self.language@ == "de"@),
    {
        str_eq(self.language.as_str(), "de")
    }

    pub fn is_spanish(&self) -> (b: bool)
        ensures b == (self.language@ == "es"@),
    {
        str_eq(self.language.as_str(), "es")
    }

    pub fn is_italian(&self) -> (b: bool)
        ensures b == (self.language@ == "it"@),
    {
        str_eq(self.language.as_str(), "it")
    }

    pub fn is_portuguese(&self) -> (b: bool)
        ensures b == (self.language@ == "pt"@),
    {
        str_eq(self.language.as_str(), "pt")
    }

    pub fn is_chinese(&self) -> (b: bool)
        ensures b == (self.language@ == "zh"@),
    {
        str_eq(self.language.as_str(), "zh")
    }

    pub fn is_japanese(&self) -> (b: bool)
        ensures b == (self.language@ == "ja"@),
    {
        str_eq(self.language.as_str(), "ja")
    }

    pub fn is_arabic(&self) -> (b: bool)
        ensures b == (self.language@ == "ar"@),
    {
        str_eq(self.language.as_str(), "ar")
    }

    pub fn is_russian(&self) -> (b: bool)
        ensures b == (self.language@ == "ru"@),
    {
        str_eq(self.language.as_str(), "ru")
    }

}

/// The language codes Whisper knows, and "auto".
pub open spec fn known_language(l: Seq<char>) -> bool {
    l == "af"@
    || l == "ar"@
    || l == "hy"@
    || l == "az"@
    || l == "be"@
    || l == "bs"@
    || l == "bg"@
    || l == "ca"@
    || l == "zh"@
    || l == "hr"@
    || l == "cs"@
    || l == "da"@
    || l == "nl"@
    || l == "en"@
    || l == "et"@
    || l == "fi"@
    || l == "fr"@
    || l == "gl"@
    || l == "de"@
    || l == "el"@
    || l == "he"@
    || l == "hi"@
    || l == "hu"@
    || l == "is"@
    || l == "id"@
    || l == "it"@
    || l == "ja"@
    || l == "kn"@
    || l == "kk"@
    || l == "ko"@
    || l == "lv"@
    || l == "lt"@
    || l == "mk"@
    || l == "ms"@
    || l == "mr"@
    || l == "mi"@
    || l == "ne"@
    || l == "no"@
    || l == "fa"@
    || l == "pl"@
    || l == "pt"@
    || l == "ro"@
    || l == "ru"@
    || l == "sr"@
    || l == "sk"@
    || l == "sl"@
    || l == "es"@
    || l == "sw"@
    || l == "sv"@
    || l == "tl"@
    || l == "ta"@
    || l == "th"@
    || l == "tr"@
    || l == "uk"@
    || l == "ur"@
    || l == "vi"@
    || l == "cy"@
    || l == "auto"@
}

pub open spec fn inject_delay_text(d: u64) -> Seq<char> {
    decimal(d as nat) + if d < 50 { "ms (rapide)"@ } else if d < 150 { "ms (normal)"@ } else { "ms (lent)"@ }
}

pub open spec fn record_limit_class(secs: u64) -> Seq<char> {
    if secs <= 10 { "très court"@ } else if secs <= 30 { "court"@ } else if secs <= 120 { "normal"@ } else { "long"@ }
}

pub open spec fn language_flag(l: Seq<char>) -> Seq<char> {
    if l == "fr"@ { "🇫🇷"@ } else if l == "en"@ { "🇬🇧"@ } else if l == "de"@ { "🇩🇪"@ }
    else if l == "es"@ { "🇪🇸"@ } else if l == "it"@ { "🇮🇹"@ } else if l == "pt"@ { "🇵🇹"@ }
    else if l == "ja"@ { "🇯🇵"@ } else if l == "zh"@ { "🇨🇳"@ } else if l == "ru"@ { "🇷🇺"@ }
    else if l == "ar"@ { "🇸🇦"@ } else if l == "auto"@ { "🌐"@ } else { "🌍"@ }
}

pub open spec fn microphone_text(c: Config) -> Seq<char> {
    match c.microphone { Some(m) => m@, None => "défaut système"@ }
}

/// The model file name for a model name: the name itself when it ends in
/// ".bin", otherwise `ggml-<name>.bin`.
pub open spec fn model_file_text(name: Seq<char>) -> Seq<char> {
    if crate::text::ends_with(name, ".bin"@) { name } else { "ggml-"@ + name + ".bin"@ }
}

/// A path text that every platform splits the same way, into exactly the
/// parts between its slashes: it is not empty, holds no `\\` and no `:` (so
/// no Windows prefix), has no empty part (no `//`, no trailing `/`) and no
/// `.` part (which `Path::components` drops). Only a leading `/` (the root)
/// stands before an empty first part.
pub open spec fn plain_path(s: Seq<char>) -> bool {
    &&& s.len() > 0
    &&& forall|i: int| 0 <= i < s.len() ==> #[trigger] s[i] != '\\' && s[i] != ':'
    &&& forall|i: int| 0 <= i < s.len() && #[trigger] s[i] == '/' ==> i + 1 < s.len() && s[i + 1] != '/'
    &&& forall|i: int| 0 <= i < s.len() && #[trigger] s[i] == '.' ==> !((i == 0 || s[i - 1] == '/')
            && (i + 1 == s.len() || s[i + 1] == '/'))
}

/// `Path == Path` on two paths, which compares their components as the
/// platform splits them (`Path::components`: repeated separators, `.` parts
/// and a trailing separator are dropped; nothing else is normalised). What
/// holds everywhere: equal texts are equal paths, and two `plain_path` texts,
/// whose components are their parts between slashes, are equal paths exactly
/// when the texts are equal. Other texts, such as `C:/a/./b` or `a\\b`, are
/// split differently by each platform, and nothing more is said of them.
#[verifier::external_body]
fn paths_equal(a: &str, b: &str) -> (r: bool)
    ensures
        a@ == b@ ==> r,
        plain_path(a@) && plain_path(b@) ==> (r <==> a@ == b@),
{
    std::path::Path::new(a) == std::path::Path::new(b)
}

/// The one-line description for a model name `n`: profile, language, model,
/// hotkey, silence level and beep.
pub open spec fn description_text(c: Config, n: Seq<char>) -> Seq<char> {
    "["@ + profile_of(c) + "] "@ + language_name(c.language@) + " | "@ + n + " | hotkey:"@ + hotkey_text(c.hotkey)
        + " | silence:"@ + silence_label(c.silence_threshold_bits) + " | beep:"@ + beep_text(c)
}

impl Config {
    pub fn total_config_fields() -> (n: usize)
        ensures n == 23,
    {
        23
    }

    pub fn app_name() -> (r: &'static str)
        ensures r@ == "Dictum"@,
    {
        "Dictum"
    }

    /// The optional settings in use: one for a chosen microphone, one per rule.
    pub fn optional_fields_count(&self) -> (n: usize)
        requires self.substitutions@.len() < usize::MAX,
        ensures n == (if self.microphone is Some { 1nat } else { 0 }) + self.substitutions@.len(),
    {
        let mut count: usize = 0;
        if self.microphone.is_some() { count += 1; }
        if self.substitutions.len() > 0 {
            count += self.substitutions.len();
        }
        count
    }

    pub fn history_capacity_remaining(&self, current_count: usize) -> (n: usize)
        ensures n == if current_count < self.max_history { self.max_history - current_count } else { 0 },
    {
        if current_count < self.max_history { self.max_history - current_count } else { 0 }
    }

    pub fn hotkey_modifier_count(&self) -> (n: u8)
        ensures n == (if self.hotkey.ctrl { 1nat } else { 0 }) + (if self.hotkey.alt { 1nat } else { 0 }) + (if self.hotkey.shift { 1nat } else { 0 }),
    {
        (if self.hotkey.ctrl { 1u8 } else { 0 }) + (if self.hotkey.alt { 1u8 } else { 0 }) + (if self.hotkey.shift { 1u8 } else { 0 })
    }

    /// How many of the eight optional features are on.
    pub fn total_feature_flags(&self) -> (n: usize)
        ensures n == (if self.beep_enabled { 1nat } else { 0 }) + (if self.auto_capitalize { 1nat } else { 0 })
            + (if self.french_typography { 1nat } else { 0 }) + (if self.auto_enter { 1nat } else { 0 })
            + (if self.prefix_space { 1nat } else { 0 }) + (if self.pause_media { 1nat } else { 0 })
            + (if self.whisper_no_speech { 1nat } else { 0 }) + (if self.microphone is Some { 1nat } else { 0 }),
    {
        let mut n: usize = 0;
        if self.beep_enabled { n += 1; }
        if self.auto_capitalize { n += 1; }
        if self.french_typography { n += 1; }
        if self.auto_enter { n += 1; }
        if self.prefix_space { n += 1; }
        if self.pause_media { n += 1; }
        if self.whisper_no_speech { n += 1; }
        if self.microphone.is_some() { n += 1; }
        n
    }

    /// The whisper time limit for a recording (see `transcript::timeout_for`).
    pub fn effective_timeout(&self, audio_secs: u64) -> (t: u64)
        requires audio_secs <= u64::MAX / 10,
        ensures t == crate::transcript::timeout_for(audio_secs as nat),
    {
        crate::transcript::adaptive_timeout_secs(audio_secs)
    }

    /// The model to install: large-v3 with 4 GB of video memory, medium otherwise.
    pub fn recommend_model(has_fast_cpu: bool, vram_mb: u32) -> (r: &'static str)
        ensures r@ == if vram_mb >= 4096 { "large-v3"@ } else { "medium"@ },
    {
        if vram_mb >= 4096 { "large-v3" } else if has_fast_cpu { "medium" } else { "medium" }
    }

    /// Threads for a number of cores: between 2 and 8.
    pub fn recommend_threads(cpu_cores: usize) -> (n: u32)
        ensures n == if cpu_cores < 2 { 2 } else if cpu_cores > 8 { 8 } else { cpu_cores },
    {
        let m: u32 = if cpu_cores < 8 { cpu_cores as u32 } else { 8 };
        if m < 2 { 2 } else { m }
    }

    pub fn is_valid_language_code(&self) -> (b: bool)
        ensures b == known_language(self.language@),
    {
        let l = self.language.as_str();
        str_eq(l, "af") || str_eq(l, "ar") || str_eq(l, "hy") || str_eq(l, "az") || str_eq(l, "be") || str_eq(l, "bs") || str_eq(l, "bg") || str_eq(l, "ca") || str_eq(l, "zh") || str_eq(l, "hr") || str_eq(l, "cs") || str_eq(l, "da") || str_eq(l, "nl") || str_eq(l, "en") || str_eq(l, "et") || str_eq(l, "fi") || str_eq(l, "fr") || str_eq(l, "gl") || str_eq(l, "de") || str_eq(l, "el") || str_eq(l, "he") || str_eq(l, "hi") || str_eq(l, "hu") || str_eq(l, "is") || str_eq(l, "id") || str_eq(l, "it") || str_eq(l, "ja") || str_eq(l, "kn") || str_eq(l, "kk") || str_eq(l, "ko") || str_eq(l, "lv") || str_eq(l, "lt") || str_eq(l, "mk") || str_eq(l, "ms") || str_eq(l, "mr") || str_eq(l, "mi") || str_eq(l, "ne") || str_eq(l, "no") || str_eq(l, "fa") || str_eq(l, "pl") || str_eq(l, "pt") || str_eq(l, "ro") || str_eq(l, "ru") || str_eq(l, "sr") || str_eq(l, "sk") || str_eq(l, "sl") || str_eq(l, "es") || str_eq(l, "sw") || str_eq(l, "sv") || str_eq(l, "tl") || str_eq(l, "ta") || str_eq(l, "th") || str_eq(l, "tr") || str_eq(l, "uk") || str_eq(l, "ur") || str_eq(l, "vi") || str_eq(l, "cy") || str_eq(l, "auto")
    }

    /// The hotkey is F followed by a number that fits in a byte.
    pub fn hotkey_is_function_key(&self) -> (b: bool)
        ensures b == (self.hotkey.key@.len() > 0 && self.hotkey.key@[0] == 'F'
            && crate::text::parse_unsigned(self.hotkey.key@.drop_first(), 255) is Some),
    {
        let k = crate::text::chars_of(self.hotkey.key.as_str());
        if k.len() == 0 || k[0] != 'F' {
            return false;
        }
        assert(k@.subrange(1, k@.len() as int) == k@.drop_first());
        crate::text::parse_unsigned_chars(&k.as_slice()[1..k.len()], 255).is_some()
    }

    pub fn max_history_display(&self) -> (r: String)
        ensures r@ == decimal(self.max_history as nat) + " entrée"@ + if self.max_history > 1 { "s"@ } else { ""@ },
    {
        let mut r = crate::text::u64_to_decimal(self.max_history as u64);
        push_str(&mut r, " entrée");
        if self.max_history > 1 {
            push_str(&mut r, "s");
        } else {
            proof { reveal_strlit(""); }
            assert(r@ == r@ + ""@);
        }
        r
    }

    pub fn history_limit_display(&self) -> (r: String)
        ensures r@ == decimal(self.max_history as nat) + " entrées max"@,
    {
        let mut r = crate::text::u64_to_decimal(self.max_history as u64);
        push_str(&mut r, " entrées max");
        r
    }

    pub fn record_config_display(&self) -> (r: String)
        ensures r@ == "max="@ + decimal(self.max_record_secs as nat) + "s min="@ + decimal(self.min_record_ms as nat)
            + "ms silence="@ + silence_label(self.silence_threshold_bits),
    {
        let mut r = owned("max=");
        push_decimal(&mut r, self.max_record_secs);
        push_str(&mut r, "s min=");
        push_decimal(&mut r, self.min_record_ms);
        push_str(&mut r, "ms silence=");
        push_str(&mut r, self.silence_level_label());
        r
    }

    pub fn microphone_display(&self) -> (r: String)
        ensures r@ == microphone_text(*self),
    {
        match &self.microphone {
            Some(m) => m.clone(),
            None => owned("défaut système"),
        }
    }

    pub fn audio_input_display(&self) -> (r: String)
        ensures r@ == "micro=["@ + microphone_text(*self) + "] rec=["@ + duration_text(*self) + "] silence=["@
            + silence_label(self.silence_threshold_bits) + "]"@,
    {
        let mut r = owned("micro=[");
        push_str(&mut r, self.microphone_display().as_str());
        push_str(&mut r, "] rec=[");
        push_str(&mut r, self.record_duration_label().as_str());
        push_str(&mut r, "] silence=[");
        push_str(&mut r, self.silence_level_label());
        push_str(&mut r, "]");
        r
    }

    pub fn inject_delay_display(&self) -> (r: String)
        ensures r@ == inject_delay_text(self.inject_delay_ms),
    {
        let d = self.inject_delay_ms;
        let mut r = crate::text::u64_to_decimal(d);
        if d < 50 { push_str(&mut r, "ms (rapide)"); }
        else if d < 150 { push_str(&mut r, "ms (normal)"); }
        else { push_str(&mut r, "ms (lent)"); }
        r
    }

    pub fn inject_delay_category(&self) -> (r: &'static str)
        ensures r@ == if self.inject_delay_ms <= 50 { "rapide"@ } else if self.inject_delay_ms <= 150 { "normal"@ } else { "lent"@ },
    {
        if self.inject_delay_ms <= 50 { "rapide" } else if self.inject_delay_ms <= 150 { "normal" } else { "lent" }
    }

    pub fn record_limit_category(&self) -> (r: &'static str)
        ensures r@ == record_limit_class(self.max_record_secs),
    {
        let s = self.max_record_secs;
        if s <= 10 { "très court" } else if s <= 30 { "court" } else if s <= 120 { "normal" } else { "long" }
    }

    pub fn language_emoji(&self) -> (r: &'static str)
        ensures r@ == language_flag(self.language@),
    {
        let l = self.language.as_str();
        if str_eq(l, "fr") { "🇫🇷" } else if str_eq(l, "en") { "🇬🇧" } else if str_eq(l, "de") { "🇩🇪" }
        else if str_eq(l, "es") { "🇪🇸" } else if str_eq(l, "it") { "🇮🇹" } else if str_eq(l, "pt") { "🇵🇹" }
        else if str_eq(l, "ja") { "🇯🇵" } else if str_eq(l, "zh") { "🇨🇳" } else if str_eq(l, "ru") { "🇷🇺" }
        else if str_eq(l, "ar") { "🇸🇦" } else if str_eq(l, "auto") { "🌐" } else { "🌍" }
    }

    /// The log level with its colour mark, or the level itself when unknown.
    pub fn log_level_display(&self) -> (r: &str)
        ensures
            r@ == if self.log_level@ == "error"@ { "🔴 error"@ } else if self.log_level@ == "warn"@ { "🟡 warn"@ }
                else if self.log_level@ == "info"@ { "🟢 info"@ } else if self.log_level@ == "debug"@ { "🔵 debug"@ }
                else if self.log_level@ == "trace"@ { "⚪ trace"@ } else { self.log_level@ },
    {
        let l = self.log_level.as_str();
        if str_eq(l, "error") { "🔴 error" } else if str_eq(l, "warn") { "🟡 warn" }
        else if str_eq(l, "info") { "🟢 info" } else if str_eq(l, "debug") { "🔵 debug" }
        else if str_eq(l, "trace") { "⚪ trace" } else { l }
    }

    /// "auto-detect" for automatic detection, the language code otherwise.
    pub fn effective_language(&self) -> (r: &str)
        ensures r@ == if self.language@ == "auto"@ { "auto-detect"@ } else { self.language@ },
    {
        if str_eq(self.language.as_str(), "auto") { "auto-detect" } else { self.language.as_str() }
    }

    pub fn hotkey_key(&self) -> (r: &str)
        ensures r@ == self.hotkey.key@,
    {
        self.hotkey.key.as_str()
    }

    pub fn config_version_display(&self) -> (r: String)
        ensures r@ == "config v"@ + decimal(self.config_version as nat) + " | app v1.0.0"@,
    {
        let mut r = owned("config v");
        push_decimal(&mut r, self.config_version as u64);
        push_str(&mut r, " | app v");
        push_str(&mut r, Config::app_version());
        proof { reveal_strlit(" | app v1.0.0"); reveal_strlit(" | app v"); reveal_strlit("1.0.0"); }
        assert(" | app v"@ + "1.0.0"@ =~= " | app v1.0.0"@);
        r
    }

    pub fn config_age_display(&self) -> (r: String)
        ensures r@ == "config_version="@ + decimal(self.config_version as nat),
    {
        let mut r = owned("config_version=");
        push_decimal(&mut r, self.config_version as u64);
        r
    }

    /// The longest recording as minutes and seconds from one minute on.
    pub fn record_max_secs_display(&self) -> (r: String)
        ensures
            r@ == if self.max_record_secs >= 60 {
                decimal((self.max_record_secs / 60) as nat) + "min"@ + decimal((self.max_record_secs % 60) as nat) + "s"@
            } else {
                decimal(self.max_record_secs as nat) + "s"@
            },
    {
        let s = self.max_record_secs;
        if s >= 60 {
            let mut r = crate::text::u64_to_decimal(s / 60);
            push_str(&mut r, "min");
            push_decimal(&mut r, s % 60);
            push_str(&mut r, "s");
            r
        } else {
            let mut r = crate::text::u64_to_decimal(s);
            push_str(&mut r, "s");
            r
        }
    }

    pub fn min_record_ms_display(&self) -> (r: String)
        ensures r@ == decimal(self.min_record_ms as nat) + "ms"@,
    {
        let mut r = crate::text::u64_to_decimal(self.min_record_ms);
        push_str(&mut r, "ms");
        r
    }

    pub fn beep_start_freq_display(&self) -> (r: String)
        ensures r@ == decimal(self.beep_start_freq as nat) + "Hz"@,
    {
        let mut r = crate::text::u64_to_decimal(self.beep_start_freq as u64);
        push_str(&mut r, "Hz");
        r
    }

    pub fn beep_end_freq_display(&self) -> (r: String)
        ensures r@ == decimal(self.beep_end_freq as nat) + "Hz"@,
    {
        let mut r = crate::text::u64_to_decimal(self.beep_end_freq as u64);
        push_str(&mut r, "Hz");
        r
    }

    pub fn beep_duration_display(&self) -> (r: String)
        ensures r@ == decimal(self.beep_duration_ms as nat) + "ms"@,
    {
        let mut r = crate::text::u64_to_decimal(self.beep_duration_ms as u64);
        push_str(&mut r, "ms");
        r
    }

    /// `v<version> | <hotkey> | <score>/100`.
    pub fn summary_for_about(&self, r: &Readiness) -> (t: String)
        ensures t@ == "v1.0.0 | "@ + hotkey_text(self.hotkey) + " | "@ + decimal(score_of(*self, *r)) + "/100"@,
    {
        let mut t = owned("v");
        push_str(&mut t, Config::app_version());
        push_str(&mut t, " | ");
        push_str(&mut t, self.hotkey_string().as_str());
        push_str(&mut t, " | ");
        push_decimal(&mut t, self.score(r) as u64);
        push_str(&mut t, "/100");
        proof { reveal_strlit("v1.0.0 | "); reveal_strlit("v"); reveal_strlit("1.0.0"); reveal_strlit(" | "); }
        assert("v"@ + "1.0.0"@ + " | "@ =~= "v1.0.0 | "@);
        t
    }

    /// The description, the hotkey and the score.
    pub fn full_description(&self, r: &Readiness) -> (t: String)
        ensures
            exists|n: Seq<char>| names_model(self.model_path@, n) && t@ == description_text(*self, n) + " | "@
                + hotkey_text(self.hotkey) + " | score "@ + decimal(score_of(*self, *r)) + "/100"@,
    {
        let mut t = self.description();
        let ghost n = choose|n: Seq<char>| names_model(self.model_path@, n) && t@ == description_text(*self, n);
        push_str(&mut t, " | ");
        push_str(&mut t, self.hotkey_string().as_str());
        push_str(&mut t, " | score ");
        push_decimal(&mut t, self.score(r) as u64);
        push_str(&mut t, "/100");
        assert(t@ == description_text(*self, n) + " | "@ + hotkey_text(self.hotkey) + " | score "@
            + decimal(score_of(*self, *r)) + "/100"@);
        t
    }

    /// `model=... lang=... hotkey=... beep=... typo_fr=...`.
    pub fn config_summary_oneliner(&self) -> (t: String)
        ensures
            exists|n: Seq<char>| names_model(self.model_path@, n) && t@ == "model="@ + n + " lang="@ + self.language@
                + " hotkey="@ + hotkey_text(self.hotkey) + " beep="@ + bool_text(self.beep_enabled)
                + " typo_fr="@ + bool_text(self.french_typography),
    {
        let n = self.model_name();
        let mut t = owned("model=");
        push_str(&mut t, n.as_str());
        push_str(&mut t, " lang=");
        push_str(&mut t, self.language.as_str());
        push_str(&mut t, " hotkey=");
        push_str(&mut t, self.hotkey_string().as_str());
        push_str(&mut t, " beep=");
        push_str(&mut t, crate::text::bool_str(self.beep_enabled));
        push_str(&mut t, " typo_fr=");
        push_str(&mut t, crate::text::bool_str(self.french_typography));
        t
    }

    /// The file name for a model name (see `model_file_text`).
    pub fn model_file_name(name: &str) -> (r: String)
        ensures r@ == model_file_text(name@),
    {
        if crate::text::ends_with_str(name, ".bin") {
            owned(name)
        } else {
            let mut r = owned("ggml-");
            push_str(&mut r, name);
            push_str(&mut r, ".bin");
            r
        }
    }

    /// At most the first three rules as `from→to`, then ` +n` for the others;
    /// "aucune" without rules.
    pub fn substitutions_display(&self) -> (r: String)
        ensures
            r@ == if self.substitutions@.len() == 0 {
                "aucune"@
            } else {
                crate::text::join(rule_previews(self.substitutions@.take(if self.substitutions@.len() < 3 { self.substitutions@.len() as int } else { 3 })), ", "@)
                    + if self.substitutions@.len() > 3 { " +"@ + decimal((self.substitutions@.len() - 3) as nat) } else { ""@ }
            },
    {
        let n = self.substitutions.len();
        if n == 0 {
            return owned("aucune");
        }
        let shown: usize = if n < 3 { n } else { 3 };
        let ghost pv = rule_previews(self.substitutions@.take(shown as int));
        let mut r = String::new();
        let mut i: usize = 0;
        while i < shown
            invariant
                i <= shown <= self.substitutions@.len(),
                shown == if n < 3 { n } else { 3 },
                n == self.substitutions@.len(),
                pv == rule_previews(self.substitutions@.take(shown as int)),
                r@ == crate::text::join(pv.take(i as int), ", "@),
            decreases shown - i,
        {
            proof {
                assert(pv[i as int] == self.substitutions@[i as int].from@ + "→"@ + self.substitutions@[i as int].to@);
                assert(pv.take(i as int + 1) == pv.take(i as int).push(pv[i as int]));
                crate::text::lemma_join_push(pv.take(i as int), ", "@, pv[i as int]);
            }
            if i > 0 {
                push_str(&mut r, ", ");
            }
            push_str(&mut r, self.substitutions[i].from.as_str());
            push_str(&mut r, "→");
            push_str(&mut r, self.substitutions[i].to.as_str());
            i += 1;
        }
        assert(pv.take(shown as int) == pv);
        if n > 3 {
            push_str(&mut r, " +");
            push_decimal(&mut r, (n - 3) as u64);
        } else {
            proof { reveal_strlit(""); }
            assert(r@ == r@ + ""@);
        }
        r
    }

    /// How many of language, model path, hotkey key, silence threshold,
    /// threads and longest recording differ; the model paths compared as
    /// paths, which equal texts always are.
    pub fn diff_fields(&self, other: &Config) -> (n: usize)
        ensures
            n == diff_others(*self, *other) || n == diff_others(*self, *other) + 1,
            self.model_path@ == other.model_path@ ==> n == diff_others(*self, *other),
    {
        let mut d: usize = 0;
        if !str_eq(self.language.as_str(), other.language.as_str()) { d += 1; }
        if !paths_equal(self.model_path.as_str(), other.model_path.as_str()) { d += 1; }
        if !str_eq(self.hotkey.key.as_str(), other.hotkey.key.as_str()) { d += 1; }
        if !binary32::equal(self.silence_threshold_bits, other.silence_threshold_bits) { d += 1; }
        if self.whisper_threads != other.whisper_threads { d += 1; }
        if self.max_record_secs != other.max_record_secs { d += 1; }
        d
    }

    /// The same model file (compared as paths).
    pub fn is_same_model(&self, other: &Config) -> (b: bool)
        ensures
            self.model_path@ == other.model_path@ ==> b,
            plain_path(self.model_path@) && plain_path(other.model_path@)
                ==> (b <==> self.model_path@ == other.model_path@),
    {
        paths_equal(self.model_path.as_str(), other.model_path.as_str())
    }

    /// The model file is not the default one (compared as paths).
    pub fn has_custom_model_path(&self, default_model_path: &str) -> (b: bool)
        ensures
            self.model_path@ == default_model_path@ ==> !b,
            plain_path(self.model_path@) && plain_path(default_model_path@)
                ==> (b <==> self.model_path@ != default_model_path@),
    {
        !paths_equal(self.model_path.as_str(), default_model_path)
    }

    /// A medium model, at least four threads, and a delay of at most 80 ms.
    pub fn is_optimized_for_speed(&self, parallelism: Option<usize>) -> (b: bool)
        ensures
            exists|n: Seq<char>| names_model(self.model_path@, n) && b == (contains(n, "medium"@)
                && threads_of(*self, parallelism) >= 4 && self.inject_delay_ms <= 80),
    {
        self.uses_medium_model() && self.effective_threads(parallelism) >= 4 && self.inject_delay_ms <= 80
    }

    /// A large model at temperature 0.
    pub fn is_optimized_for_quality(&self) -> (b: bool)
        ensures
            exists|n: Seq<char>| names_model(self.model_path@, n) && b == (contains(n, "large"@)
                && f32_eq(self.whisper_temperature_bits, binary32::ZERO)),
    {
        self.uses_large_model() && binary32::equal(self.whisper_temperature_bits, binary32::ZERO)
    }

    /// "Rapide", "Haute qualité", "Qualité" or "Standard".
    pub fn performance_label(&self, parallelism: Option<usize>) -> (r: &'static str)
        ensures
            exists|n: Seq<char>| names_model(self.model_path@, n)
                && r@ == performance_text(*self, n, threads_of(*self, parallelism)),
    {
        let n = self.model_name();
        self.performance_for(n.as_str(), parallelism)
    }

    /// The performance class with the model named `name`.
    pub fn performance_for(&self, name: &str, parallelism: Option<usize>) -> (r: &'static str)
        ensures r@ == performance_text(*self, name@, threads_of(*self, parallelism)),
    {
        let medium = contains_str(name, "medium");
        let large = contains_str(name, "large");
        if medium && self.effective_threads(parallelism) >= 4 && self.inject_delay_ms <= 80 {
            "Rapide"
        } else if large && binary32::equal(self.whisper_temperature_bits, binary32::ZERO) {
            "Haute qualité"
        } else if large {
            "Qualité"
        } else {
            "Standard"
        }
    }
}

/// The performance class for a model name and thread count.
pub open spec fn performance_text(c: Config, name: Seq<char>, threads: nat) -> Seq<char> {
    if contains(name, "medium"@) && threads >= 4 && c.inject_delay_ms <= 80 { "Rapide"@ }
    else if contains(name, "large"@) && f32_eq(c.whisper_temperature_bits, binary32::ZERO) { "Haute qualité"@ }
    else if contains(name, "large"@) { "Qualité"@ }
    else { "Standard"@ }
}

/// The differences counted by `diff_fields` other than the model path.
pub open spec fn diff_others(a: Config, b: Config) -> nat {
    (if a.language@ != b.language@ { 1nat } else { 0 })
    + (if a.hotkey.key@ != b.hotkey.key@ { 1nat } else { 0 })
    + (if !f32_eq(a.silence_threshold_bits, b.silence_threshold_bits) { 1nat } else { 0 })
    + (if a.whisper_threads != b.whisper_threads { 1nat } else { 0 })
    + (if a.max_record_secs != b.max_record_secs { 1nat } else { 0 })
}

/// `from→to` for each rule.
pub open spec fn rule_previews(rules: Seq<Substitution>) -> Seq<Seq<char>> {
    rules.map_values(|r: Substitution| r.from@ + "→"@ + r.to@)
}


// ---------------------------------------------------------------------------
// Reports. Real numbers reach them already written out (`silence_text`,
// `temperature_text`), as the caller formats binary32 values.
// ---------------------------------------------------------------------------

/// The message of an issue.
pub open spec fn issue_text(i: Issue, c: Config, silence_text: Seq<char>, temperature_text: Seq<char>) -> Seq<char> {
    match i {
        Issue::ModelMissing => "Modèle absent : "@ + c.model_path@,
        Issue::CliMissing => "whisper-cli.exe manquant"@,
        Issue::HotkeyUndefined => "Hotkey non définie"@,
        Issue::MaxRecordZero => "max_record_secs = 0 invalide"@,
        Issue::SilenceTooHigh => "silence_threshold="@ + silence_text + " très élevé — aucune dictée passera"@,
        Issue::InjectDelayHigh => "inject_delay_ms="@ + decimal(c.inject_delay_ms as nat) + " élevé — injection lente"@,
        Issue::ModelNotBin => "Modèle '"@ + c.model_path@ + "' n'est pas un .bin"@,
        Issue::TemperatureHigh => "whisper_temperature="@ + temperature_text + " élevé — risque d'hallucinations"@,
    }
}

/// The messages of the issues of a configuration.
pub open spec fn issue_texts(c: Config, r: Readiness, silence_text: Seq<char>, temperature_text: Seq<char>) -> Seq<Seq<char>> {
    issue_list(c, r).map_values(|i: Issue| issue_text(i, c, silence_text, temperature_text))
}

/// One for a check that fails, zero otherwise.
pub open spec fn fails(b: bool) -> nat {
    if b { 1 } else { 0 }
}

/// The number of checks that fail: the model missing, whisper-cli missing,
/// no hotkey, no recording time, a silence threshold of 1.0 or more, an
/// injection delay over 500 ms, a model file (when present) whose
/// extension is not "bin", a temperature over 0.5.
pub open spec fn failed_checks(c: Config, r: Readiness) -> nat {
    fails(!r.model_present) + fails(!r.cli_present) + fails(c.hotkey.key@.len() == 0)
        + fails(c.max_record_secs == 0) + fails(binary32::le(binary32::ONE, c.silence_threshold_bits))
        + fails(c.inject_delay_ms > 500) + fails(r.model_present && r.model_ext_wrong)
        + fails(f32_lt(F32_0_5, c.whisper_temperature_bits))
}

/// `validate` reports one message per failed check, so it reports nothing
/// exactly when every check passes.
pub proof fn lemma_validate_counts_failed_checks(c: Config, r: Readiness, silence_text: Seq<char>, temperature_text: Seq<char>)
    ensures
        issue_texts(c, r, silence_text, temperature_text).len() == failed_checks(c, r),
        issue_texts(c, r, silence_text, temperature_text).len() == 0 <==> (
            r.model_present && r.cli_present && c.hotkey.key@.len() > 0 && c.max_record_secs != 0
            && !binary32::le(binary32::ONE, c.silence_threshold_bits) && c.inject_delay_ms <= 500
            && !r.model_ext_wrong && !f32_lt(F32_0_5, c.whisper_temperature_bits)
        ),
{
    reveal(when);
}

/// "✓" or "✗".
pub open spec fn mark(b: bool) -> Seq<char> {
    if b { "✓"@ } else { "✗"@ }
}

/// The issues, one "  • " line each.
pub open spec fn bullet_lines(ms: Seq<Seq<char>>) -> Seq<Seq<char>> {
    ms.map_values(|m: Seq<char>| "  • "@ + m)
}

impl Config {
    /// The message of one issue.
    pub fn issue_message(&self, i: Issue, silence_text: &str, temperature_text: &str) -> (m: String)
        ensures m@ == issue_text(i, *self, silence_text@, temperature_text@),
    {
        match i {
            Issue::ModelMissing => {
                let mut m = owned("Modèle absent : ");
                push_str(&mut m, self.model_path.as_str());
                m
            },
            Issue::CliMissing => owned("whisper-cli.exe manquant"),
            Issue::HotkeyUndefined => owned("Hotkey non définie"),
            Issue::MaxRecordZero => owned("max_record_secs = 0 invalide"),
            Issue::SilenceTooHigh => {
                let mut m = owned("silence_threshold=");
                push_str(&mut m, silence_text);
                push_str(&mut m, " très élevé — aucune dictée passera");
                m
            },
            Issue::InjectDelayHigh => {
                let mut m = owned("inject_delay_ms=");
                push_decimal(&mut m, self.inject_delay_ms);
                push_str(&mut m, " élevé — injection lente");
                m
            },
            Issue::ModelNotBin => {
                let mut m = owned("Modèle '");
                push_str(&mut m, self.model_path.as_str());
                push_str(&mut m, "' n'est pas un .bin");
                m
            },
            Issue::TemperatureHigh => {
                let mut m = owned("whisper_temperature=");
                push_str(&mut m, temperature_text);
                push_str(&mut m, " élevé — risque d'hallucinations");
                m
            },
        }
    }

    /// The problems of the configuration, as messages, in a fixed order.
    /// `silence_text` is the silence threshold as `{}` prints it,
    /// `temperature_text` the temperature as `{:.1}` prints it.
    pub fn validate(&self, r: &Readiness, silence_text: &str, temperature_text: &str) -> (v: Vec<String>)
        ensures v@.map_values(|s: String| s@) == issue_texts(*self, *r, silence_text@, temperature_text@),
    {
        let issues = self.issues(r);
        let ghost il = issue_list(*self, *r);
        let mut v: Vec<String> = Vec::new();
        let mut i: usize = 0;
        while i < issues.len()
            invariant
                i <= issues@.len(),
                issues@ == il,
                v@.map_values(|s: String| s@) == il.take(i as int).map_values(
                    |x: Issue| issue_text(x, *self, silence_text@, temperature_text@)),
            decreases issues@.len() - i,
        {
            let ghost before = v@.map_values(|s: String| s@);
            let m = self.issue_message(issues[i], silence_text, temperature_text);
            v.push(m);
            assert(il.take(i as int + 1) == il.take(i as int).push(il[i as int]));
            assert(v@.map_values(|s: String| s@) =~= before.push(issue_text(il[i as int], *self, silence_text@, temperature_text@)));
            i += 1;
        }
        assert(il.take(il.len() as int) == il);
        v
    }

    /// One line on readiness: ready with score and model, or the problems.
    pub fn is_ready_message(&self, r: &Readiness, silence_text: &str, temperature_text: &str) -> (m: String)
        ensures
            exists|n: Seq<char>| names_model(self.model_path@, n) && m@ == if issue_list(*self, *r).len() == 0 {
                "Dictum "@ + "1.0.0"@ + " prêt [score:"@ + decimal(score_of(*self, *r)) + "/100 — "@
                    + score_label_of(score_of(*self, *r)) + "] — "@ + n
            } else {
                "score:"@ + decimal(score_of(*self, *r)) + "/100 — "@ + decimal(issue_list(*self, *r).len())
                    + " problème(s) : "@ + crate::text::join(issue_texts(*self, *r, silence_text@, temperature_text@), ", "@)
            },
    {
        let issues = self.validate(r, silence_text, temperature_text);
        let n = self.model_name();
        let mut m = String::new();
        if issues.len() == 0 {
            push_str(&mut m, "Dictum ");
            push_str(&mut m, Config::app_version());
            push_str(&mut m, " prêt [score:");
            push_decimal(&mut m, self.score(r) as u64);
            push_str(&mut m, "/100 — ");
            push_str(&mut m, self.score_label(r));
            push_str(&mut m, "] — ");
            push_str(&mut m, n.as_str());
        } else {
            push_str(&mut m, "score:");
            push_decimal(&mut m, self.score(r) as u64);
            push_str(&mut m, "/100 — ");
            push_decimal(&mut m, issues.len() as u64);
            push_str(&mut m, " problème(s) : ");
            let joined = join_strings(&issues, ", ");
            push_str(&mut m, joined.as_str());
        }
        proof { reveal_strlit(""); }
        m
    }

    /// The Whisper settings on one line.
    pub fn whisper_config_display(&self, parallelism: Option<usize>, temperature_text: &str) -> (r: String)
        ensures
            exists|n: Seq<char>| names_model(self.model_path@, n) && r@ == "threads="@ + self.threads_text(parallelism)
                + " temp="@ + temperature_text@ + " no_speech="@ + bool_text(self.whisper_no_speech) + " speed="@
                + speed_label(n),
    {
        let n = self.model_name();
        let mut r = owned("threads=");
        push_str(&mut r, self.threads_display(parallelism).as_str());
        push_str(&mut r, " temp=");
        push_str(&mut r, temperature_text);
        push_str(&mut r, " no_speech=");
        push_str(&mut r, crate::text::bool_str(self.whisper_no_speech));
        push_str(&mut r, " speed=");
        push_str(&mut r, speed_label_for(n.as_str()));
        r
    }

    /// What `threads_display` shows.
    pub open spec fn threads_text(&self, parallelism: Option<usize>) -> Seq<char> {
        if self.whisper_threads == 0 {
            "auto (max "@ + decimal(threads_of(*self, parallelism)) + ")"@
        } else {
            decimal(self.whisper_threads as nat)
        }
    }

    /// The status block of the About box.
    pub fn full_status(&self, r: &Readiness, parallelism: Option<usize>, temperature_text: &str) -> (s: String)
        ensures
            exists|n: Seq<char>| names_model(self.model_path@, n) && s@ == "Dictum v"@ + "1.0.0"@ + " | Modèle: "@ + n
                + " ["@ + mark(r.model_present) + "|~"@ + decimal(size_estimate(n)) + "MB|"@
                + performance_text(*self, n, threads_of(*self, parallelism)) + "] | Langue: "@
                + language_name(self.language@) + " | Hotkey: "@ + hotkey_text(self.hotkey)
                + "\nWhisper: threads="@ + self.threads_text(parallelism) + " temp="@ + temperature_text@
                + " | Enregistrement: "@ + duration_text(*self) + " | Silence: "@ + silence_label(self.silence_threshold_bits)
                + "\nInjection: ["@ + (if mode_parts(*self).len() == 0 { "minimal"@ } else { crate::text::join(mode_parts(*self), "+"@) })
                + "] | Beep: "@ + beep_text(*self),
    {
        let n = self.model_name();
        let mut s = owned("Dictum v");
        push_str(&mut s, Config::app_version());
        push_str(&mut s, " | Modèle: ");
        push_str(&mut s, n.as_str());
        push_str(&mut s, " [");
        push_str(&mut s, if r.model_present { "✓" } else { "✗" });
        push_str(&mut s, "|~");
        push_decimal(&mut s, size_estimate_for(n.as_str()) as u64);
        push_str(&mut s, "MB|");
        push_str(&mut s, self.performance_for(n.as_str(), parallelism));
        push_str(&mut s, "] | Langue: ");
        push_str(&mut s, self.language_display().as_str());
        push_str(&mut s, " | Hotkey: ");
        push_str(&mut s, self.hotkey_string().as_str());
        push_str(&mut s, "\nWhisper: threads=");
        push_str(&mut s, self.threads_display(parallelism).as_str());
        push_str(&mut s, " temp=");
        push_str(&mut s, temperature_text);
        push_str(&mut s, " | Enregistrement: ");
        push_str(&mut s, self.record_duration_label().as_str());
        push_str(&mut s, " | Silence: ");
        push_str(&mut s, self.silence_level_label());
        push_str(&mut s, "\nInjection: [");
        push_str(&mut s, self.inject_mode_label().as_str());
        push_str(&mut s, "] | Beep: ");
        push_str(&mut s, self.beep_description().as_str());
        s
    }

    /// The diagnostic report.
    pub fn diagnose(&self, r: &Readiness, parallelism: Option<usize>, silence_text: &str, temperature_text: &str)
        -> (s: String)
        ensures
            exists|n: Seq<char>| names_model(self.model_path@, n) && s@ == "=== Dictum "@ + "1.0.0"@
                + " Diagnostic — Score: "@ + decimal(score_of(*self, *r)) + "/100 ("@ + score_label_of(score_of(*self, *r))
                + ") ===\nModèle   : "@ + mark(r.model_present) + " "@ + n
                + "\nCLI      : "@ + mark(r.cli_present) + " whisper-cli.exe"@
                + "\nConfig   : ✓ v"@ + decimal(self.config_version as nat)
                + "\nProfil   : "@ + profile_of(*self)
                + "\nThreads  : "@ + self.threads_text(parallelism)
                + "\nSilence  : "@ + silence_label(self.silence_threshold_bits)
                + "\nBeep     : "@ + beep_text(*self) + "\n"@
                + (if issue_list(*self, *r).len() == 0 {
                    "✓ Tout est OK"@
                } else {
                    "⚠ "@ + decimal(issue_list(*self, *r).len()) + " problème(s) :\n"@
                        + crate::text::join(bullet_lines(issue_texts(*self, *r, silence_text@, temperature_text@)), "\n"@)
                })
                + "\n==="@,
    {
        let issues = self.validate(r, silence_text, temperature_text);
        let n = self.model_name();
        let mut s = owned("=== Dictum ");
        push_str(&mut s, Config::app_version());
        push_str(&mut s, " Diagnostic — Score: ");
        push_decimal(&mut s, self.score(r) as u64);
        push_str(&mut s, "/100 (");
        push_str(&mut s, self.score_label(r));
        push_str(&mut s, ") ===\nModèle   : ");
        push_str(&mut s, if r.model_present { "✓" } else { "✗" });
        push_str(&mut s, " ");
        push_str(&mut s, n.as_str());
        push_str(&mut s, "\nCLI      : ");
        push_str(&mut s, if r.cli_present { "✓" } else { "✗" });
        push_str(&mut s, " whisper-cli.exe");
        push_str(&mut s, "\nConfig   : ✓ v");
        push_decimal(&mut s, self.config_version as u64);
        push_str(&mut s, "\nProfil   : ");
        push_str(&mut s, self.profile_name());
        push_str(&mut s, "\nThreads  : ");
        push_str(&mut s, self.threads_display(parallelism).as_str());
        push_str(&mut s, "\nSilence  : ");
        push_str(&mut s, self.silence_level_label());
        push_str(&mut s, "\nBeep     : ");
        push_str(&mut s, self.beep_description().as_str());
        push_str(&mut s, "\n");
        if issues.len() == 0 {
            push_str(&mut s, "✓ Tout est OK");
        } else {
            push_str(&mut s, "⚠ ");
            push_decimal(&mut s, issues.len() as u64);
            push_str(&mut s, " problème(s) :\n");
            let bullets = bulleted(&issues);
            push_str(&mut s, join_strings(&bullets, "\n").as_str());
        }
        push_str(&mut s, "\n===");
        s
    }
}

/// Each message with "  • " in front.
fn bulleted(ms: &Vec<String>) -> (r: Vec<String>)
    ensures r@.map_values(|s: String| s@) == bullet_lines(ms@.map_values(|s: String| s@)),
{
    let ghost all = ms@.map_values(|s: String| s@);
    let mut r: Vec<String> = Vec::new();
    let mut i: usize = 0;
    while i < ms.len()
        invariant
            i <= ms@.len(),
            all == ms@.map_values(|s: String| s@),
            r@.map_values(|s: String| s@) == bullet_lines(all.take(i as int)),
        decreases ms@.len() - i,
    {
        let ghost before = r@.map_values(|s: String| s@);
        let mut line = owned("  • ");
        push_str(&mut line, ms[i].as_str());
        r.push(line);
        assert(all.take(i as int + 1) == all.take(i as int).push(all[i as int]));
        assert(r@.map_values(|s: String| s@) =~= before.push("  • "@ + all[i as int]));
        i += 1;
    }
    assert(all.take(all.len() as int) == all);
    r
}

/// The texts joined with `sep` between consecutive ones.
pub fn join_strings(parts: &Vec<String>, sep: &str) -> (r: String)
    ensures r@ == crate::text::join(parts@.map_values(|s: String| s@), sep@),
{
    let ghost all = parts@.map_values(|s: String| s@);
    let mut r = String::new();
    let mut i: usize = 0;
    while i < parts.len()
        invariant
            i <= parts@.len(),
            all == parts@.map_values(|s: String| s@),
            r@ == crate::text::join(all.take(i as int), sep@),
        decreases parts@.len() - i,
    {
        assert(all.take(i as int + 1) == all.take(i as int).push(all[i as int]));
        proof { crate::text::lemma_join_push(all.take(i as int), sep@, all[i as int]); }
        if i > 0 {
            push_str(&mut r, sep);
        }
        push_str(&mut r, parts[i].as_str());
        i += 1;
    }
    assert(all.take(all.len() as int) == all);
    r
}


/// The text alone when the condition holds, nothing otherwise.
#[verifier::opaque]
pub open spec fn text_when(b: bool, t: Seq<char>) -> Seq<Seq<char>> {
    if b { seq![t] } else { seq![] }
}

fn push_text_when(v: &mut Vec<String>, b: bool, t: String)
    ensures final(v)@.map_values(|s: String| s@) == old(v)@.map_values(|s: String| s@) + text_when(b, t@),
{
    reveal(text_when);
    let ghost before = v@.map_values(|s: String| s@);
    let ghost tv = t@;
    if b {
        v.push(t);
        assert(v@.map_values(|s: String| s@) =~= before + text_when(b, tv));
    } else {
        assert(v@.map_values(|s: String| s@) =~= before + text_when(b, tv));
    }
}

/// The settings that differ from the defaults, as "name: default → value"
/// texts; `silence_text` is the threshold as `{:.3}` prints it.
pub open spec fn change_list(c: Config, silence_text: Seq<char>) -> Seq<Seq<char>> {
    text_when(c.language@ != "auto"@, "langue: auto → "@ + c.language@)
        + text_when(!c.beep_enabled, "beep: true → false"@)
        + text_when(c.pause_media, "pause_media: false → true"@)
        + text_when(!f32_eq(c.silence_threshold_bits, DEFAULT_SILENCE_BITS), "silence: 0.005 → "@ + silence_text)
        + text_when(c.max_record_secs != 30, "max_rec: 30s → "@ + decimal(c.max_record_secs as nat) + "s"@)
        + text_when(c.substitutions@.len() > 0, "substitutions: "@ + decimal(c.substitutions@.len()) + " règle(s)"@)
}

impl Config {
    /// What differs from the default settings.
    pub fn changes_from_default(&self, silence_text: &str) -> (v: Vec<String>)
        ensures v@.map_values(|s: String| s@) == change_list(*self, silence_text@),
    {
        let mut v: Vec<String> = Vec::new();
        let mut lang = owned("langue: auto → ");
        push_str(&mut lang, self.language.as_str());
        push_text_when(&mut v, !str_eq(self.language.as_str(), "auto"), lang);
        push_text_when(&mut v, !self.beep_enabled, owned("beep: true → false"));
        push_text_when(&mut v, self.pause_media, owned("pause_media: false → true"));
        let mut sil = owned("silence: 0.005 → ");
        push_str(&mut sil, silence_text);
        push_text_when(&mut v, !binary32::equal(self.silence_threshold_bits, DEFAULT_SILENCE_BITS), sil);
        let mut rec = owned("max_rec: 30s → ");
        push_decimal(&mut rec, self.max_record_secs);
        push_str(&mut rec, "s");
        push_text_when(&mut v, self.max_record_secs != 30, rec);
        let mut subs = owned("substitutions: ");
        push_decimal(&mut subs, self.substitutions.len() as u64);
        push_str(&mut subs, " règle(s)");
        push_text_when(&mut v, self.substitutions.len() > 0, subs);
        v
    }

    /// "configuration par défaut", or the count and list of the changes.
    pub fn changes_summary_display(&self, silence_text: &str) -> (r: String)
        ensures
            r@ == if change_list(*self, silence_text@).len() == 0 {
                "configuration par défaut"@
            } else {
                decimal(change_list(*self, silence_text@).len()) + " modification(s) : "@
                    + crate::text::join(change_list(*self, silence_text@), ", "@)
            },
    {
        let changes = self.changes_from_default(silence_text);
        if changes.len() == 0 {
            return owned("configuration par défaut");
        }
        let mut r = String::new();
        push_decimal(&mut r, changes.len() as u64);
        push_str(&mut r, " modification(s) : ");
        push_str(&mut r, join_strings(&changes, ", ").as_str());
        proof { reveal_strlit(""); }
        r
    }

    /// The file name for a model name: as given when it ends in ".bin",
    /// else "ggml-<name>.bin".
    pub fn model_file_for(name: &str) -> (r: String)
        ensures
            r@ == if crate::text::ends_with(name@, ".bin"@) { name@ } else { "ggml-"@ + name@ + ".bin"@ },
    {
        if crate::text::ends_with_str(name, ".bin") {
            owned(name)
        } else {
            let mut r = owned("ggml-");
            push_str(&mut r, name);
            push_str(&mut r, ".bin");
            r
        }
    }
}

} // verus!
