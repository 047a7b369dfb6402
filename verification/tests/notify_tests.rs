use dictum::notify::{notify_pause, notify_ready, notify_transcription_done, notify_update, toast_script};

#[test]
fn update_notice() {
    let t = notify_update("1.2.0", 25);
    assert_eq!(t.title, "Dictum — Mise à jour disponible");
    assert_eq!(t.message, "Version 1.2.0 disponible (25 MB). Cliquer sur l'icône tray.");
}

#[test]
fn pause_notices() {
    let p = notify_pause(true);
    assert_eq!(p.title, "Dictum — Pause");
    assert_eq!(p.message, "Dictée suspendue. Cliquer tray pour reprendre.");
    let r = notify_pause(false);
    assert_eq!(r.title, "Dictum — Reprise");
    assert_eq!(r.message, "Dictée active.");
}

#[test]
fn transcription_notice_from_fifty_words() {
    assert!(notify_transcription_done(49, "3.0").is_none());
    let t = notify_transcription_done(50, "12.5").expect("notice");
    assert_eq!(t.title, "Dictum — Transcription terminée");
    assert_eq!(t.message, "50 mots transcrits en 12.5s");
}

#[test]
fn ready_notice() {
    let t = notify_ready("Ctrl+F9", "ggml-medium.bin");
    assert_eq!(t.title, "Dictum — Prêt");
    assert_eq!(t.message, "Maintenir Ctrl+F9 pour dicter. Modèle : ggml-medium.bin");
}

#[test]
fn script_escapes_double_quotes() {
    let s = toast_script("Ti\"tle", "say \"hi\"");
    let expected = "Add-Type -AssemblyName System.Windows.Forms; \\\n\
$n = New-Object System.Windows.Forms.NotifyIcon; \\\n\
$n.Icon = [System.Drawing.Icon]::ExtractAssociatedIcon((Get-Process -Id $PID).Path); \\\n\
$n.Visible = $true; \\\n\
$n.ShowBalloonTip(4000, \"Ti'tle\", \"say 'hi'\", [System.Windows.Forms.ToolTipIcon]::Info); \\\n\
Start-Sleep -Milliseconds 4500; \\\n\
$n.Dispose()";
    assert_eq!(s, expected);
}
