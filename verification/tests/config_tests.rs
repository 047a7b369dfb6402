use dictum::config::{hotkey_combo, Config, HotkeyConfig, Issue, Readiness, DEFAULT_SILENCE_BITS};

fn defaults() -> Config {
    Config::defaults_at("C:/Dictum/models/ggml-medium.bin".to_string())
}

fn ready() -> Readiness {
    Readiness { model_present: true, cli_present: true, model_ext_wrong: false }
}

#[test]
fn default_settings() {
    let c = defaults();
    assert_eq!(c.config_version, 1);
    assert_eq!(c.language, "auto");
    assert_eq!(c.hotkey.key, "F9");
    assert_eq!(c.max_record_secs, 30);
    assert_eq!(c.min_record_ms, 300);
    assert_eq!(c.max_history, 10);
    assert_eq!(c.inject_delay_ms, 80);
    assert_eq!(f32::from_bits(c.silence_threshold_bits), 0.005f32);
    assert_eq!(c.silence_threshold_bits, DEFAULT_SILENCE_BITS);
    assert_eq!(f32::from_bits(c.whisper_temperature_bits), 0.0f32);
    assert_eq!((c.beep_start_freq, c.beep_end_freq, c.beep_duration_ms), (800, 600, 80));
    assert_eq!(c.log_level, "info");
    assert!(c.french_typography && c.auto_capitalize && !c.auto_enter && c.beep_enabled);
    let h = HotkeyConfig::default();
    assert_eq!(h.key, "F9");
}

#[test]
fn serde_default_helpers() {
    assert_eq!(dictum::config::default_config_version(), 1);
    assert_eq!(dictum::config::default_inject_delay(), 80);
    assert_eq!(dictum::config::default_beep_start_freq(), 800);
    assert_eq!(dictum::config::default_beep_end_freq(), 600);
    assert_eq!(dictum::config::default_beep_duration(), 80);
    assert_eq!(dictum::config::default_log_level(), "info");
    assert_eq!(f32::from_bits(dictum::config::default_whisper_temperature_bits()), 0.0);
}

#[test]
fn sanitizing_repairs_out_of_range_values() {
    let mut c = defaults();
    c.max_record_secs = 0;
    c.min_record_ms = 9000;
    c.max_history = 0;
    c.silence_threshold_bits = 3.5f32.to_bits();
    c.hotkey.key = String::new();
    c.language = String::new();
    c.inject_delay_ms = 5000;
    c.log_level = "verbose".to_string();
    c.whisper_threads = 64;
    c.whisper_temperature_bits = (-1.0f32).to_bits();
    c.beep_start_freq = 50;
    c.beep_end_freq = 30000;
    c.beep_duration_ms = 0;
    let s = c.sanitized_with(Some("txt"), "default.bin");
    assert_eq!(s.max_record_secs, 30);
    assert_eq!(s.min_record_ms, 5000);
    assert_eq!(s.max_history, 10);
    assert_eq!(f32::from_bits(s.silence_threshold_bits), 1.0);
    assert_eq!(s.hotkey.key, "F9");
    assert_eq!(s.language, "auto");
    assert_eq!(s.inject_delay_ms, 1000);
    assert_eq!(s.log_level, "info");
    assert_eq!(s.whisper_threads, 32);
    assert_eq!(f32::from_bits(s.whisper_temperature_bits), 0.0);
    assert_eq!((s.beep_start_freq, s.beep_end_freq, s.beep_duration_ms), (800, 600, 80));
    assert_eq!(s.model_path, "default.bin");
}

#[test]
fn sanitizing_twice_changes_nothing_more() {
    let mut c = defaults();
    c.max_history = 500;
    c.silence_threshold_bits = 2.0f32.to_bits();
    let once = c.sanitized_with(Some("bin"), "d.bin");
    let twice = once.duplicate().sanitized_with(Some("bin"), "d.bin");
    assert_eq!(once.max_history, twice.max_history);
    assert_eq!(once.silence_threshold_bits, twice.silence_threshold_bits);
    assert_eq!(once.model_path, twice.model_path);
    assert_eq!(once.model_path, "C:/Dictum/models/ggml-medium.bin");
}

#[test]
fn nan_threshold_stays_nan() {
    let mut c = defaults();
    c.silence_threshold_bits = f32::NAN.to_bits();
    let s = c.sanitized_with(None, "d.bin");
    assert!(f32::from_bits(s.silence_threshold_bits).is_nan());
}

#[test]
fn score_of_a_ready_french_setup() {
    let mut c = defaults();
    c.language = "fr".to_string();
    c.add_substitution("dc", "donc", true);
    assert_eq!(c.score(&ready()), 100);
    assert_eq!(c.score_label(&ready()), "Excellent");
    let none = Readiness { model_present: false, cli_present: false, model_ext_wrong: false };
    assert_eq!(c.score(&none), 30);
    assert_eq!(c.score_label(&none), "Basique");
}

#[test]
fn score_breakdown_lines() {
    let c = defaults();
    let r = Readiness { model_present: true, cli_present: false, model_ext_wrong: false };
    assert_eq!(
        c.score_breakdown_display(&r),
        "  ✓ : 30/30pts\n  ✗ : 0/1pts\n  ✗ : 0/1pts\n  ✗ : 0/1pts\n  ✗ : 0/1pts\n  ✓ : 5/5pts\n  ✓ : 10/10pts"
    );
}

#[test]
fn issues_found() {
    let mut c = defaults();
    c.hotkey.key = String::new();
    c.inject_delay_ms = 501;
    c.whisper_temperature_bits = 0.6f32.to_bits();
    let r = Readiness { model_present: true, cli_present: false, model_ext_wrong: true };
    assert_eq!(
        c.issues(&r),
        vec![Issue::CliMissing, Issue::HotkeyUndefined, Issue::InjectDelayHigh, Issue::ModelNotBin, Issue::TemperatureHigh]
    );
    assert!(defaults().issues(&ready()).is_empty());
}

#[test]
fn hotkey_text() {
    let h = HotkeyConfig { ctrl: true, alt: true, shift: true, key: "F2".to_string() };
    assert_eq!(hotkey_combo(&h), "Ctrl+Alt+Shift+F2");
    assert_eq!(defaults().hotkey_string(), "F9");
}

#[test]
fn substitutions_are_added_once_and_removed() {
    let mut c = defaults();
    c.add_substitution("dc", "donc", true);
    c.add_substitution("dc", "autre", false);
    c.add_substitution("", "rien", false);
    assert_eq!(c.substitution_count(), 1);
    assert_eq!(c.apply_substitutions("DC oui"), "donc oui");
    assert!(c.remove_substitution_by_from("dc"));
    assert!(!c.remove_substitution_by_from("dc"));
    assert!(!c.has_substitutions());
}

#[test]
fn merge_keeps_existing_rules() {
    let mut a = defaults();
    a.add_substitution("pk", "pourquoi", true);
    let mut b = defaults();
    b.add_substitution("pk", "parce", true);
    b.add_substitution("tt", "tout", true);
    a.merge_substitutions_from(&b);
    assert_eq!(a.substitution_count(), 2);
    assert_eq!(a.apply_substitutions("pk tt"), "pourquoi tout");
}

#[test]
fn dictaphone_profile() {
    let mut c = defaults();
    c.auto_enter = true;
    c.apply_profile_dictaphone();
    assert_eq!(c.max_record_secs, 120);
    assert!(!c.auto_enter && c.auto_capitalize && c.beep_enabled);
}

#[test]
fn threads() {
    let mut c = defaults();
    assert_eq!(c.effective_threads(Some(16)), 8);
    assert_eq!(c.effective_threads(Some(2)), 2);
    assert_eq!(c.effective_threads(None), 4);
    c.whisper_threads = 6;
    assert_eq!(c.effective_threads(Some(16)), 6);
}

#[test]
fn sanitize_reads_the_model_extension() {
    let mut c = defaults();
    c.model_path = "models/model.txt".to_string();
    assert_eq!(c.sanitized("d.bin").model_path, "d.bin");
    let mut c = defaults();
    c.model_path = "models/model.bin".to_string();
    assert_eq!(c.sanitized("d.bin").model_path, "models/model.bin");
    let mut c = defaults();
    c.model_path = "models/model".to_string();
    assert_eq!(c.sanitized("d.bin").model_path, "models/model");
    let mut c = defaults();
    c.model_path = "models/model.".to_string();
    assert_eq!(c.sanitized("d.bin").model_path, "d.bin");
}

#[test]
fn model_paths_compare_as_paths() {
    let a = defaults();
    let mut b = defaults();
    assert!(a.is_same_model(&b));
    b.model_path = "C:/Dictum/models/./ggml-medium.bin".to_string();
    assert!(a.is_same_model(&b));
    b.model_path = "C:/Dictum/models/ggml-large.bin".to_string();
    assert!(!a.is_same_model(&b));
    assert!(!a.has_custom_model_path("C:/Dictum/models/ggml-medium.bin"));
    assert!(a.has_custom_model_path("other.bin"));
    assert_eq!(a.model_name(), "ggml-medium.bin");
}
