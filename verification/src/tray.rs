//! The tray icon: its tooltip, colours and menu texts.
use vstd::prelude::*;
use crate::text::{decimal, owned, push_decimal, push_str};

verus! {

/// Megabytes of `bytes`, rounded up.
pub open spec fn mb_ceil(bytes: nat) -> nat {
    (bytes + 1048575) / 1048576
}

/// "s" for more than one.
pub open spec fn plural(n: nat) -> Seq<char> {
    if n > 1 { "s"@ } else { ""@ }
}

/// The tooltip: recording, transcribing, or the model, the count of
/// dictations of the session and the hotkey.
pub open spec fn tooltip_text(recording: bool, transcribing: bool, count: u32, model: Seq<char>, hotkey: Seq<char>) -> Seq<char> {
    if recording {
        "Dictum — Enregistrement... (relâcher "@ + hotkey + ")"@
    } else if transcribing {
        "Dictum — Transcription en cours..."@
    } else if count > 0 {
        "Dictum ["@ + model + "] — "@ + decimal(count as nat) + " dictée"@ + plural(count as nat) + " | "@ + hotkey
    } else {
        "Dictum ["@ + model + "] — Maintenir "@ + hotkey + " pour dicter"@
    }
}

pub fn tooltip(recording: bool, transcribing: bool, count: u32, model: &str, hotkey: &str) -> (r: String)
    ensures r@ == tooltip_text(recording, transcribing, count, model@, hotkey@),
{
    if recording {
        let mut r = owned("Dictum — Enregistrement... (relâcher ");
        push_str(&mut r, hotkey);
        push_str(&mut r, ")");
        r
    } else if transcribing {
        owned("Dictum — Transcription en cours...")
    } else if count > 0 {
        let mut r = owned("Dictum [");
        push_str(&mut r, model);
        push_str(&mut r, "] — ");
        push_decimal(&mut r, count as u64);
        push_str(&mut r, " dictée");
        push_str(&mut r, if count > 1 { "s" } else { "" });
        push_str(&mut r, " | ");
        push_str(&mut r, hotkey);
        r
    } else {
        let mut r = owned("Dictum [");
        push_str(&mut r, model);
        push_str(&mut r, "] — Maintenir ");
        push_str(&mut r, hotkey);
        push_str(&mut r, " pour dicter");
        r
    }
}

/// The icon colour: red while recording, orange while transcribing, blue at rest.
pub fn icon_color(recording: bool, transcribing: bool) -> (c: (u8, u8, u8))
    ensures c == if recording { (220u8, 50u8, 50u8) } else if transcribing { (220u8, 140u8, 20u8) } else { (70u8, 130u8, 180u8) },
{
    if recording { (220, 50, 50) } else if transcribing { (220, 140, 20) } else { (70, 130, 180) }
}

/// The size of an installer in megabytes, rounded up.
pub fn size_mb(bytes: u64) -> (m: u64)
    ensures m == mb_ceil(bytes as nat),
{
    bytes / 1048576 + if bytes % 1048576 > 0 { 1 } else { 0 }
}

/// The menu entry of an available update.
pub fn update_label(version: &str, installer_size: u64) -> (r: String)
    ensures r@ == "🔄 v"@ + version@ + " disponible ("@ + decimal(mb_ceil(installer_size as nat)) + " MB) — Cliquer pour installer"@,
{
    let mut r = owned("🔄 v");
    push_str(&mut r, version);
    push_str(&mut r, " disponible (");
    push_decimal(&mut r, size_mb(installer_size));
    push_str(&mut r, " MB) — Cliquer pour installer");
    r
}

/// The question asked before installing an update.
pub fn update_question(version: &str, installer_size: u64) -> (r: String)
    ensures r@ == "Installer Dictum v"@ + version@ + " ("@ + decimal(mb_ceil(installer_size as nat))
        + " MB) ?\n\nDictum va se fermer et l'installateur va démarrer."@,
{
    let mut r = owned("Installer Dictum v");
    push_str(&mut r, version);
    push_str(&mut r, " (");
    push_decimal(&mut r, size_mb(installer_size));
    push_str(&mut r, " MB) ?\n\nDictum va se fermer et l'installateur va démarrer.");
    r
}

/// The history menu entry with its count.
pub fn history_label(count: usize) -> (r: String)
    ensures r@ == "📋 Historique ("@ + decimal(count as nat) + ")"@,
{
    let mut r = owned("📋 Historique (");
    push_decimal(&mut r, count as u64);
    push_str(&mut r, ")");
    r
}

/// What the About box says.
pub struct AboutFacts<'a> {
    pub model_name: &'a str,
    pub model_present: bool,
    pub cli_present: bool,
    pub language: &'a str,
    pub hotkey: &'a str,
    pub threads: usize,
    pub session_count: u32,
    pub config_path: &'a str,
    pub log_path: &'a str,
}

pub open spec fn presence(b: bool) -> Seq<char> {
    if b { "✓ présent"@ } else { "✗ MANQUANT"@ }
}

/// The About box text.
pub fn about_text(f: &AboutFacts) -> (r: String)
    ensures
        r@ == "Dictum v"@ + "1.0.0"@ + "\ngithub.com/painteau/Dictum\n\nModèle  : "@ + f.model_name@ + " ("@
            + presence(f.model_present) + ")\nwhisper : "@ + presence(f.cli_present) + "\nLangue  : "@ + f.language@
            + "\nHotkey  : "@ + f.hotkey@ + "\nThreads : "@ + decimal(f.threads as nat) + "\n\nSession : "@
            + decimal(f.session_count as nat) + " transcription"@ + plural(f.session_count as nat) + "\nConfig  : "@
            + f.config_path@ + "\nLog     : "@ + f.log_path@,
{
    let mut r = owned("Dictum v");
    push_str(&mut r, crate::config::Config::app_version());
    push_str(&mut r, "\ngithub.com/painteau/Dictum\n\nModèle  : ");
    push_str(&mut r, f.model_name);
    push_str(&mut r, " (");
    push_str(&mut r, if f.model_present { "✓ présent" } else { "✗ MANQUANT" });
    push_str(&mut r, ")\nwhisper : ");
    push_str(&mut r, if f.cli_present { "✓ présent" } else { "✗ MANQUANT" });
    push_str(&mut r, "\nLangue  : ");
    push_str(&mut r, f.language);
    push_str(&mut r, "\nHotkey  : ");
    push_str(&mut r, f.hotkey);
    push_str(&mut r, "\nThreads : ");
    push_decimal(&mut r, f.threads as u64);
    push_str(&mut r, "\n\nSession : ");
    push_decimal(&mut r, f.session_count as u64);
    push_str(&mut r, " transcription");
    push_str(&mut r, if f.session_count > 1 { "s" } else { "" });
    push_str(&mut r, "\nConfig  : ");
    push_str(&mut r, f.config_path);
    push_str(&mut r, "\nLog     : ");
    push_str(&mut r, f.log_path);
    r
}

} // verus!
