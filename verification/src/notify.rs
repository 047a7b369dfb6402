//! Balloon notifications: their texts, and the PowerShell script that shows one.
use vstd::prelude::*;
use crate::text::{chars_of, decimal, owned, push_decimal, push_str, string_of};

verus! {

/// A notification to show.
pub struct Toast {
    pub title: String,
    pub message: String,
}

/// The text with its double quotes turned into single quotes.
pub open spec fn unquoted(s: Seq<char>) -> Seq<char> {
    s.map_values(|c: char| if c == '"' { '\'' } else { c })
}

fn unquote(s: &str) -> (r: String)
    ensures r@ == unquoted(s@),
{
    let v = chars_of(s);
    let mut out: Vec<char> = Vec::new();
    let mut i: usize = 0;
    while i < v.len()
        invariant
            i <= v@.len(),
            v@ == s@,
            out@ == unquoted(v@.take(i as int)),
        decreases v@.len() - i,
    {
        let c = v[i];
        out.push(if c == '"' { '\'' } else { c });
        assert(unquoted(v@.take(i as int + 1)) == unquoted(v@.take(i as int)).push(if c == '"' { '\'' } else { c }));
        i += 1;
    }
    assert(v@.take(v@.len() as int) == v@);
    string_of(out.as_slice())
}

/// The PowerShell script that shows a balloon with this title and message
/// for four seconds (double quotes in them become single quotes).
pub open spec fn balloon_script(title: Seq<char>, message: Seq<char>) -> Seq<char> {
    "Add-Type -AssemblyName System.Windows.Forms; \\\n$n = New-Object System.Windows.Forms.NotifyIcon; \\\n$n.Icon = [System.Drawing.Icon]::ExtractAssociatedIcon((Get-Process -Id $PID).Path); \\\n$n.Visible = $true; \\\n$n.ShowBalloonTip(4000, \""@
        + unquoted(title) + "\", \""@ + unquoted(message)
        + "\", [System.Windows.Forms.ToolTipIcon]::Info); \\\nStart-Sleep -Milliseconds 4500; \\\n$n.Dispose()"@
}

/// The script that shows a notification.
pub fn toast_script(title: &str, message: &str) -> (r: String)
    ensures r@ == balloon_script(title@, message@),
{
    let mut r = owned("Add-Type -AssemblyName System.Windows.Forms; \\\n$n = New-Object System.Windows.Forms.NotifyIcon; \\\n$n.Icon = [System.Drawing.Icon]::ExtractAssociatedIcon((Get-Process -Id $PID).Path); \\\n$n.Visible = $true; \\\n$n.ShowBalloonTip(4000, \"");
    push_str(&mut r, unquote(title).as_str());
    push_str(&mut r, "\", \"");
    push_str(&mut r, unquote(message).as_str());
    push_str(&mut r, "\", [System.Windows.Forms.ToolTipIcon]::Info); \\\nStart-Sleep -Milliseconds 4500; \\\n$n.Dispose()");
    r
}

/// The notice of an available update.
pub fn notify_update(version: &str, size_mb: u64) -> (t: Toast)
    ensures
        t.title@ == "Dictum — Mise à jour disponible"@,
        t.message@ == "Version "@ + version@ + " disponible ("@ + decimal(size_mb as nat)
            + " MB). Cliquer sur l'icône tray."@,
{
    let mut m = owned("Version ");
    push_str(&mut m, version);
    push_str(&mut m, " disponible (");
    push_decimal(&mut m, size_mb);
    push_str(&mut m, " MB). Cliquer sur l'icône tray.");
    Toast { title: owned("Dictum — Mise à jour disponible"), message: m }
}

/// The notice that dictation is paused or resumed.
pub fn notify_pause(paused: bool) -> (t: Toast)
    ensures
        paused ==> t.title@ == "Dictum — Pause"@ && t.message@ == "Dictée suspendue. Cliquer tray pour reprendre."@,
        !paused ==> t.title@ == "Dictum — Reprise"@ && t.message@ == "Dictée active."@,
{
    if paused {
        Toast { title: owned("Dictum — Pause"), message: owned("Dictée suspendue. Cliquer tray pour reprendre.") }
    } else {
        Toast { title: owned("Dictum — Reprise"), message: owned("Dictée active.") }
    }
}

/// The notice at the end of a long transcription: only from fifty words on.
/// `secs_text` is the duration as shown (one decimal).
pub fn notify_transcription_done(words: usize, secs_text: &str) -> (t: Option<Toast>)
    ensures
        match t {
            Some(t) => words >= 50 && t.title@ == "Dictum — Transcription terminée"@
                && t.message@ == decimal(words as nat) + " mots transcrits en "@ + secs_text@ + "s"@,
            None => words < 50,
        },
{
    if words >= 50 {
        let mut m = String::new();
        push_decimal(&mut m, words as u64);
        push_str(&mut m, " mots transcrits en ");
        push_str(&mut m, secs_text);
        push_str(&mut m, "s");
        proof { reveal_strlit(""); }
        Some(Toast { title: owned("Dictum — Transcription terminée"), message: m })
    } else {
        None
    }
}

/// The notice that dictation is ready.
pub fn notify_ready(hotkey: &str, model: &str) -> (t: Toast)
    ensures
        t.title@ == "Dictum — Prêt"@,
        t.message@ == "Maintenir "@ + hotkey@ + " pour dicter. Modèle : "@ + model@,
{
    let mut m = owned("Maintenir ");
    push_str(&mut m, hotkey);
    push_str(&mut m, " pour dicter. Modèle : ");
    push_str(&mut m, model);
    Toast { title: owned("Dictum — Prêt"), message: m }
}

} // verus!
