use dictum::config::Readiness;
use dictum::downloader::NvidiaInfo;
use dictum::setup::{model_file_name, model_for_gpu, needs_setup, wizard_config, DownloadProgress, ModelKey};

#[test]
fn model_keys() {
    assert_eq!(ModelKey::Medium.as_str(), "medium");
    assert_eq!(ModelKey::Large.as_str(), "large-v3");
    assert_eq!(model_file_name(ModelKey::Large.as_str()), "ggml-large-v3.bin");
}

#[test]
fn large_model_only_with_a_capable_card() {
    assert_eq!(model_for_gpu(&None), ModelKey::Medium);
    let weak = NvidiaInfo { name: "GTX 1050".to_string(), vram_mb: 2048, capable: false };
    assert_eq!(model_for_gpu(&Some(weak)), ModelKey::Medium);
    let strong = NvidiaInfo { name: "RTX 4090".to_string(), vram_mb: 24576, capable: true };
    assert_eq!(model_for_gpu(&Some(strong)), ModelKey::Large);
}

#[test]
fn wizard_settings() {
    let c = wizard_config("m/ggml-medium.bin".to_string(), "fr", "F8", true, false, false);
    assert_eq!(c.model_path, "m/ggml-medium.bin");
    assert_eq!(c.language, "fr");
    assert!(c.french_typography);
    assert_eq!(c.hotkey.key, "F8");
    assert!(c.hotkey.ctrl && !c.hotkey.alt && !c.hotkey.shift);
    assert_eq!(c.max_history, 10);
    let e = wizard_config("x".to_string(), "en", "F9", false, false, false);
    assert!(!e.french_typography);
}

#[test]
fn setup_when_something_is_missing() {
    let r = |m, c| Readiness { model_present: m, cli_present: c, model_ext_wrong: false };
    assert!(!needs_setup(&r(true, true)));
    assert!(needs_setup(&r(false, true)));
    assert!(needs_setup(&r(true, false)));
}

#[test]
fn progress_updates() {
    let mut p = DownloadProgress::new();
    assert_eq!(p.downloaded, 0);
    p.update("ggml.dll", 10, 20);
    assert_eq!(p.current_file, "ggml.dll");
    assert_eq!((p.downloaded, p.total), (10, 20));
    assert!(!p.finished && p.error.is_none());
}

fn float_display(d: u64, t: u64) -> String {
    format!("{:.0} MB / {:.0} MB", d as f32 / 1_048_576.0, t as f32 / 1_048_576.0)
}

#[test]
fn megabytes_as_binary32_prints_them() {
    let samples: Vec<u64> = vec![
        0,
        1,
        524_287,
        524_288,
        524_289,
        1_048_576,
        1_572_864,
        2_621_440,
        3_670_016,
        16_777_215,
        16_777_216,
        16_777_217,
        1_610_612_736,
        1_610_612_735,
        3_095_474_176,
        (2u64 << 40) + 524_288,
        (1u64 << 44) - 1,
        u64::MAX,
        u64::MAX / 3,
        123_456_789_012,
    ];
    for &d in samples.iter() {
        let mut p = DownloadProgress::new();
        p.update("f", d, 3_095_474_176);
        assert_eq!(p.mb_display(), float_display(d, 3_095_474_176), "bytes {}", d);
    }
    for k in 0..2000u64 {
        let d = k * 262_144 + (k % 7);
        let mut p = DownloadProgress::new();
        p.update("f", d, d * 3);
        assert_eq!(p.mb_display(), float_display(d, d * 3), "bytes {}", d);
    }
}

#[test]
fn download_titles() {
    assert_eq!(dictum::setup::download_title("ggml-medium.bin"), "Téléchargement du modèle Whisper");
    assert_eq!(dictum::setup::download_title(""), "Préparation...");
    assert_eq!(dictum::setup::download_title("whisper-cli.exe"), "Téléchargement des outils");
}
