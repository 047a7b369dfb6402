use dictum::tray::{about_text, history_label, icon_color, size_mb, tooltip, update_label, update_question, AboutFacts};

#[test]
fn tooltips() {
    assert_eq!(tooltip(true, true, 3, "ggml-medium", "F9"), "Dictum — Enregistrement... (relâcher F9)");
    assert_eq!(tooltip(false, true, 3, "ggml-medium", "F9"), "Dictum — Transcription en cours...");
    assert_eq!(tooltip(false, false, 1, "ggml-medium", "F9"), "Dictum [ggml-medium] — 1 dictée | F9");
    assert_eq!(tooltip(false, false, 2, "ggml-medium", "F9"), "Dictum [ggml-medium] — 2 dictées | F9");
    assert_eq!(tooltip(false, false, 0, "ggml-medium", "Ctrl+F9"), "Dictum [ggml-medium] — Maintenir Ctrl+F9 pour dicter");
}

#[test]
fn icon_colours() {
    assert_eq!(icon_color(true, false), (220, 50, 50));
    assert_eq!(icon_color(true, true), (220, 50, 50));
    assert_eq!(icon_color(false, true), (220, 140, 20));
    assert_eq!(icon_color(false, false), (70, 130, 180));
}

#[test]
fn sizes_round_up_like_the_float_ceiling() {
    for &b in [0u64, 1, 1_048_575, 1_048_576, 1_048_577, 52_428_800, 3_095_474_176].iter() {
        assert_eq!(size_mb(b), (b as f64 / 1_048_576.0).ceil() as u64, "bytes {}", b);
    }
}

#[test]
fn update_texts() {
    assert_eq!(update_label("1.1.0", 1_048_577), "🔄 v1.1.0 disponible (2 MB) — Cliquer pour installer");
    assert_eq!(
        update_question("1.1.0", 1_048_576),
        "Installer Dictum v1.1.0 (1 MB) ?\n\nDictum va se fermer et l'installateur va démarrer."
    );
    assert_eq!(history_label(7), "📋 Historique (7)");
}

#[test]
fn about_box() {
    let f = AboutFacts {
        model_name: "ggml-medium.bin",
        model_present: true,
        cli_present: false,
        language: "Français",
        hotkey: "F9",
        threads: 8,
        session_count: 2,
        config_path: "C:/D/config.json",
        log_path: "C:/D/dictum.log",
    };
    assert_eq!(
        about_text(&f),
        "Dictum v1.0.0\ngithub.com/painteau/Dictum\n\nModèle  : ggml-medium.bin (✓ présent)\nwhisper : ✗ MANQUANT\nLangue  : Français\nHotkey  : F9\nThreads : 8\n\nSession : 2 transcriptions\nConfig  : C:/D/config.json\nLog     : C:/D/dictum.log"
    );
}
