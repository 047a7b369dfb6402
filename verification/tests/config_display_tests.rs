use dictum::config::{join_strings, size_estimate_for, speed_label_for, valid_log_level, Config, Readiness};

fn base() -> Config {
    Config::defaults_at("C:/Dictum/models/ggml-medium.bin".to_string())
}

fn all_there() -> Readiness {
    Readiness { model_present: true, cli_present: true, model_ext_wrong: false }
}

#[test]
fn profile_names() {
    let mut c = base();
    assert_eq!(c.profile_name(), "Français standard");
    c.pause_media = true;
    assert_eq!(c.profile_name(), "Français professionnel");
    c.pause_media = false;
    c.french_typography = false;
    assert_eq!(c.profile_name(), "Standard");
    c.auto_capitalize = false;
    assert_eq!(c.profile_name(), "Minimal");
    c.pause_media = true;
    assert_eq!(c.profile_name(), "Personnalisé");
}

#[test]
fn language_names_and_flags() {
    let mut c = base();
    assert_eq!(c.language_display(), "Auto-détection");
    assert_eq!(c.language_emoji(), "🌐");
    assert_eq!(c.effective_language(), "auto-detect");
    c.language = "fr".to_string();
    assert_eq!(c.language_display(), "Français");
    assert_eq!(c.language_emoji(), "🇫🇷");
    assert_eq!(c.effective_language(), "fr");
    c.language = "ko".to_string();
    assert_eq!(c.language_display(), "한국어");
    assert_eq!(c.language_emoji(), "🌍");
    c.language = "ar".to_string();
    assert_eq!(c.language_emoji(), "🇸🇦");
    assert!(c.is_arabic());
    c.language = "xx".to_string();
    assert_eq!(c.language_display(), "xx");
    assert!(!c.is_valid_language_code());
    c.language = "ja".to_string();
    assert!(c.is_valid_language_code());
    assert!(c.is_japanese() && c.is_language("ja") && !c.is_french());
}

#[test]
fn one_line_descriptions() {
    let c = base();
    assert_eq!(
        c.description(),
        "[Français standard] Auto-détection | ggml-medium.bin | hotkey:F9 | silence:normal | beep:800Hz/600Hz 80ms"
    );
    assert_eq!(
        c.full_description(&all_there()),
        "[Français standard] Auto-détection | ggml-medium.bin | hotkey:F9 | silence:normal | beep:800Hz/600Hz 80ms | F9 | score 85/100"
    );
    assert_eq!(c.summary_for_about(&all_there()), "v1.0.0 | F9 | 85/100");
    assert_eq!(c.config_summary_oneliner(), "model=ggml-medium.bin lang=auto hotkey=F9 beep=true typo_fr=true");
    assert_eq!(c.config_version_display(), "config v1 | app v1.0.0");
    assert_eq!(c.config_age_display(), "config_version=1");
}

#[test]
fn recording_texts() {
    let mut c = base();
    assert_eq!(c.record_duration_label(), "300ms–30s");
    assert_eq!(c.record_config_display(), "max=30s min=300ms silence=normal");
    assert_eq!(c.audio_input_display(), "micro=[défaut système] rec=[300ms–30s] silence=[normal]");
    assert_eq!(c.record_max_secs_display(), "30s");
    assert_eq!(c.min_record_ms_display(), "300ms");
    c.max_record_secs = 125;
    assert_eq!(c.record_max_secs_display(), "2min5s");
    c.microphone = Some("USB".to_string());
    assert_eq!(c.microphone_display(), "USB");
    assert!(!c.is_using_default_microphone());
}

#[test]
fn inject_mode_texts() {
    let mut c = base();
    assert_eq!(c.inject_mode_label(), "majuscule+typo_fr");
    c.prefix_space = true;
    c.auto_enter = true;
    assert_eq!(c.inject_mode_label(), "majuscule+typo_fr+espace_avant+auto_enter");
    let m = base().with_capitalize(false).with_french_typography(false);
    assert_eq!(m.inject_mode_label(), "minimal");
}

#[test]
fn model_labels() {
    let c = base();
    assert_eq!(c.whisper_speed_label(), "normal");
    assert_eq!(c.model_size_mb_estimate(), 1500);
    assert_eq!(c.min_disk_space_mb(), 1600);
    assert!(c.uses_medium_model() && !c.uses_large_model());
    assert_eq!(speed_label_for("ggml-tiny.bin"), "ultra-rapide");
    assert_eq!(speed_label_for("ggml-base.bin"), "très rapide");
    assert_eq!(speed_label_for("ggml-small.bin"), "rapide");
    assert_eq!(speed_label_for("ggml-large-v3.bin"), "lent");
    assert_eq!(speed_label_for("model.bin"), "inconnu");
    assert_eq!(size_estimate_for("ggml-large-v3.bin"), 3000);
    assert_eq!(size_estimate_for("ggml-tiny.bin"), 75);
    assert_eq!(size_estimate_for("ggml-base.bin"), 150);
    assert_eq!(size_estimate_for("ggml-small.bin"), 500);
    assert_eq!(size_estimate_for("model.bin"), 1500);
}

#[test]
fn beep_texts() {
    let mut c = base();
    assert_eq!(c.beep_description(), "800Hz/600Hz 80ms");
    assert_eq!(c.beep_start_freq_display(), "800Hz");
    assert_eq!(c.beep_end_freq_display(), "600Hz");
    assert_eq!(c.beep_duration_display(), "80ms");
    assert!(!c.has_custom_beep());
    c.set_beep_freqs(50, 30000, 0);
    assert_eq!((c.beep_start_freq, c.beep_end_freq, c.beep_duration_ms), (100, 20000, 1));
    assert!(c.has_custom_beep());
    c.set_beep_freqs(1000, 500, 5000);
    assert_eq!((c.beep_start_freq, c.beep_end_freq, c.beep_duration_ms), (1000, 500, 2000));
    c.toggle_beep();
    assert_eq!(c.beep_description(), "désactivé");
    assert!(c.is_beep_disabled());
}

#[test]
fn silence_labels() {
    let c = base();
    assert_eq!(c.silence_level_label(), "normal");
    assert_eq!(c.silence_category(), "sensible");
    let at = |v: f32| base().with_silence_threshold(v.to_bits());
    assert_eq!(at(0.0005).silence_level_label(), "désactivé");
    assert_eq!(at(0.002).silence_level_label(), "très faible");
    assert_eq!(at(0.01).silence_level_label(), "élevé");
    assert_eq!(at(0.5).silence_level_label(), "très élevé");
    assert_eq!(at(0.001).silence_category(), "très sensible");
    assert_eq!(at(0.02).silence_category(), "normal");
    assert_eq!(at(0.1).silence_category(), "sourd");
    assert!(at(0.002).is_low_silence_threshold());
    assert!(at(0.03).is_high_silence_threshold());
    assert!(!at(0.0005).silence_detection_active());
    assert!(c.silence_detection_active());
    assert_eq!(f32::from_bits(at(2.0).silence_threshold_bits), 1.0);
    assert_eq!(f32::from_bits(at(-0.5).silence_threshold_bits), 0.0);
}

#[test]
fn substitution_listing() {
    let mut c = base();
    assert_eq!(c.substitutions_display(), "aucune");
    c.add_substitution("a", "1", false);
    c.add_substitution("b", "2", false);
    assert_eq!(c.substitutions_display(), "a→1, b→2");
    c.add_substitution("c", "3", false);
    c.add_substitution("d", "4", false);
    assert_eq!(c.substitutions_display(), "a→1, b→2, c→3 +1");
    assert_eq!(c.substitutions_count(), 4);
    assert_eq!(c.substitution_index("b"), Some(1));
    assert_eq!(c.substitution_index("z"), None);
    assert_eq!(c.find_substitution("c").map(|s| s.to.clone()), Some("3".to_string()));
    assert!(c.find_substitution("z").is_none());
    c.remove_substitution("a");
    assert_eq!(c.substitution_index("b"), Some(0));
    c.microphone = Some("m".to_string());
    assert_eq!(c.optional_fields_count(), 4);
    c.clear_substitutions();
    assert_eq!(c.substitutions_count(), 0);
    assert_eq!(c.optional_fields_count(), 1);
}

#[test]
fn setters_clamp() {
    let mut c = base();
    c.set_inject_delay(5000);
    assert_eq!(c.inject_delay_ms, 1000);
    c.set_max_history(0);
    assert_eq!(c.max_history, 1);
    c.set_max_history(500);
    assert_eq!(c.max_history, 100);
    c.set_max_record_secs(1);
    assert_eq!(c.max_record_secs, 5);
    c.set_max_record_secs(1000);
    assert_eq!(c.max_record_secs, 300);
    c.set_threads(64);
    assert_eq!(c.whisper_threads, 32);
    c.set_silence_threshold(2.0f32.to_bits());
    assert_eq!(f32::from_bits(c.silence_threshold_bits), 1.0);
    c.set_whisper_temperature(1.5f32.to_bits());
    assert_eq!(f32::from_bits(c.whisper_temperature_bits), 1.0);
    c.set_whisper_temperature((-0.3f32).to_bits());
    assert_eq!(f32::from_bits(c.whisper_temperature_bits), 0.0);
    assert!(c.is_whisper_temperature_zero());
    let h = base().with_max_history(0);
    assert_eq!(h.max_history, 1);
    let h = base().with_max_history(5000);
    assert_eq!(h.max_history, 1000);
}

#[test]
fn log_levels() {
    let mut c = base();
    assert_eq!(c.log_level_display(), "🟢 info");
    assert!(c.log_level_is_info());
    c.set_log_level("trace");
    assert_eq!(c.log_level, "trace");
    assert_eq!(c.log_level_display(), "⚪ trace");
    assert!(c.is_verbose_mode() && c.is_debug_mode());
    c.set_log_level("loud");
    assert_eq!(c.log_level, "trace");
    c.set_log_debug();
    assert!(c.log_level_is_debug());
    assert_eq!(c.log_level_display(), "🔵 debug");
    c.set_log_info();
    assert!(!c.is_verbose_mode());
    let w = base().with_log_level("warn");
    assert!(w.log_level_is_warn());
    assert_eq!(w.log_level_display(), "🟡 warn");
    let e = base().with_log_level("error");
    assert_eq!(e.log_level_display(), "🔴 error");
    let o = base().with_log_level("custom");
    assert_eq!(o.log_level_display(), "custom");
    assert!(valid_log_level("trace"));
    assert!(!valid_log_level("custom"));
}

#[test]
fn language_setters() {
    let mut c = base();
    c.set_language("fr");
    assert!(c.french_typography && c.is_french());
    assert!(c.is_configured_for_french_dictation() && c.compatible_with_french());
    c.set_language("en");
    assert!(!c.french_typography && c.is_english());
    c.set_language_auto();
    assert!(c.is_auto_detect() && !c.french_typography);
    let f = base().clone_with_language("fr");
    assert!(f.french_typography);
    assert!(f.is_same_hotkey(&base()) && !f.is_same_language(&base()));
    let g = base().with_language("de");
    assert!(g.is_german() && !g.french_typography);
    let mut e = base();
    e.apply_profile_english();
    assert_eq!(e.language, "en");
    assert!(!e.french_typography && e.auto_capitalize);
}

#[test]
fn hotkey_setters_and_tests() {
    let mut c = base();
    assert_eq!(c.hotkey_key(), "F9");
    assert!(c.hotkey_is_function_key() && c.is_hotkey_no_modifier());
    c.set_hotkey("F2", true, false, true);
    assert_eq!(c.hotkey_string(), "Ctrl+Shift+F2");
    assert_eq!(c.hotkey_modifier_count(), 2);
    assert!(c.is_hotkey_with_modifier() && !c.is_hotkey_ctrl_only());
    c.set_hotkey("F2", true, false, false);
    assert!(c.is_hotkey_ctrl_only());
    c.set_hotkey("F2", false, true, false);
    assert!(c.is_hotkey_alt_only());
    assert!(!base().with_hotkey_key("Space").hotkey_is_function_key());
    assert!(!base().with_hotkey_key("F").hotkey_is_function_key());
    assert!(!base().with_hotkey_key("F300").hotkey_is_function_key());
    assert!(base().with_hotkey_key("F+1").hotkey_is_function_key());
    assert!(base().with_hotkey_key("F12").hotkey_is_function_key());
    let mut k = base();
    k.hotkey.key = String::new();
    assert!(!k.required_fields_present());
    assert!(base().required_fields_present());
}

#[test]
fn inject_delay_texts() {
    let d = |ms: u64| base().with_inject_delay(ms);
    assert_eq!(d(10).inject_delay_display(), "10ms (rapide)");
    assert_eq!(d(49).inject_delay_display(), "49ms (rapide)");
    assert_eq!(d(50).inject_delay_display(), "50ms (normal)");
    assert_eq!(d(80).inject_delay_display(), "80ms (normal)");
    assert_eq!(d(150).inject_delay_display(), "150ms (lent)");
    assert_eq!(d(50).inject_delay_category(), "rapide");
    assert_eq!(d(150).inject_delay_category(), "normal");
    assert_eq!(d(151).inject_delay_category(), "lent");
    assert!(d(50).inject_delay_is_fast() && !d(51).inject_delay_is_fast());
    assert!(d(60).with_min_record_ms(200).is_low_latency());
    assert!(!base().is_low_latency());
}

#[test]
fn record_limits() {
    let r = |s: u64| {
        let mut c = base();
        c.max_record_secs = s;
        c
    };
    assert_eq!(r(10).record_limit_category(), "très court");
    assert_eq!(r(11).record_limit_category(), "court");
    assert_eq!(r(30).record_limit_category(), "court");
    assert_eq!(r(31).record_limit_category(), "normal");
    assert_eq!(r(120).record_limit_category(), "normal");
    assert_eq!(r(121).record_limit_category(), "long");
    assert!(r(30).recording_is_limited() && !r(60).recording_is_limited());
    assert!(r(61).has_long_record_limit() && !r(60).has_long_record_limit());
    assert!(r(10).has_short_record_limit() && !r(11).has_short_record_limit());
    assert!(base().has_min_record_limit() && !base().with_min_record_ms(0).has_min_record_limit());
}

#[test]
fn history_limits() {
    let c = base();
    assert_eq!(c.max_history_display(), "10 entrées");
    assert_eq!(base().with_max_history(1).max_history_display(), "1 entrée");
    assert_eq!(c.history_limit_display(), "10 entrées max");
    assert!(c.is_history_full(10) && !c.is_history_full(9));
    assert_eq!(c.history_capacity_remaining(3), 7);
    assert_eq!(c.history_capacity_remaining(20), 0);
    assert!(base().with_max_history(50).is_history_large() && !c.is_history_large());
}

#[test]
fn profiles() {
    let mut c = base();
    c.language = "en".to_string();
    c.beep_enabled = false;
    c.apply_profile_french_standard();
    assert_eq!(c.language, "fr");
    assert!(c.french_typography && c.auto_capitalize && c.beep_enabled);
    assert_eq!(f32::from_bits(c.silence_threshold_bits), 0.005);
    c.pause_media = true;
    assert!(c.is_maximal_config());
    c.apply_profile_minimal();
    assert!(!c.french_typography && !c.auto_capitalize && !c.beep_enabled && !c.pause_media);
    assert!(c.is_minimal_config() && c.is_privacy_mode());
    let mut p = base().with_whisper_threads(6).with_min_record_ms(900);
    p.apply_profile_performance();
    assert_eq!(p.whisper_threads, 0);
    assert_eq!(f32::from_bits(p.whisper_temperature_bits), 0.0);
    assert_eq!(f32::from_bits(p.silence_threshold_bits), 0.003);
    assert_eq!(p.min_record_ms, 200);
    let mut q = base().with_pause_media(true).with_auto_enter(true).with_prefix_space(true);
    q.apply_profile_quiet();
    assert!(!q.beep_enabled && !q.pause_media && !q.auto_enter && !q.prefix_space);
    assert!(q.is_auto_enter_disabled());
}

#[test]
fn feature_flags_and_fields() {
    let c = base();
    assert_eq!(c.total_feature_flags(), 3);
    let all = base()
        .with_auto_enter(true)
        .with_prefix_space(true)
        .with_pause_media(true)
        .with_microphone(Some("m".to_string()));
    assert_eq!(all.total_feature_flags(), 7);
    assert_eq!(Config::total_config_fields(), 23);
    assert_eq!(Config::app_name(), "Dictum");
    assert!(c.inject_mode_is_keyboard() && !c.is_using_cuda());
    assert!(c.is_compatible_with_version(1) && !c.is_compatible_with_version(2));
    let mut other = base();
    assert_eq!(c.diff_fields(&other), 0);
    other.language = "fr".to_string();
    other.whisper_threads = 4;
    other.hotkey.key = "F2".to_string();
    assert_eq!(c.diff_fields(&other), 3);
    let moved = c.clone_with_model("other.bin".to_string());
    assert_eq!(c.diff_fields(&moved), 1);
}

#[test]
fn recommendations() {
    assert_eq!(Config::recommend_model(false, 4096), "large-v3");
    assert_eq!(Config::recommend_model(true, 100), "medium");
    assert_eq!(Config::recommend_model(false, 0), "medium");
    assert_eq!(Config::recommend_threads(16), 8);
    assert_eq!(Config::recommend_threads(1), 2);
    assert_eq!(Config::recommend_threads(4), 4);
    let c = base();
    assert_eq!(c.effective_timeout(3), 60);
    assert_eq!(c.effective_timeout(20), 200);
    assert_eq!(c.effective_timeout(100), 300);
}

#[test]
fn performance_labels() {
    let c = base();
    assert_eq!(c.performance_label(Some(16)), "Rapide");
    assert!(c.is_optimized_for_speed(Some(16)));
    assert_eq!(c.performance_label(Some(2)), "Standard");
    let large = base().clone_with_model("C:/m/ggml-large-v3.bin".to_string());
    assert_eq!(large.performance_label(Some(16)), "Haute qualité");
    assert!(large.is_optimized_for_quality());
    let mut warm = large.duplicate();
    warm.set_whisper_temperature(0.5f32.to_bits());
    assert_eq!(warm.performance_label(Some(16)), "Qualité");
    assert_eq!(c.thread_count_display(), "auto");
    assert_eq!(base().with_whisper_threads(4).thread_count_display(), "4 threads");
    assert!(base().with_whisper_threads(9).has_high_thread_count());
    assert!(!base().with_whisper_threads(8).has_high_thread_count());
    assert!(c.has_whisper_optimizations());
}

#[test]
fn readiness_checks() {
    let c = base();
    let none = Readiness { model_present: false, cli_present: true, model_ext_wrong: false };
    assert!(c.is_fully_ready(&all_there()) && c.can_transcribe(&all_there()));
    assert!(!c.needs_wizard(&all_there()));
    assert!(c.needs_wizard(&none) && !c.can_transcribe(&none));
    assert!(c.is_production_ready(&all_there()) && c.is_production_config(&all_there()));
    assert!(!c.is_production_config(&none));
    let b = c.score_breakdown(&all_there());
    let points: Vec<u8> = b.iter().map(|p| p.1).collect();
    assert_eq!(points, vec![30, 20, 20, 0, 0, 5, 10]);
    assert_eq!(b[0].0, "Modèle présent");
    let r = c.readiness(true, false);
    assert!(r.model_present && !r.cli_present && !r.model_ext_wrong);
    let t = base().clone_with_model("m/model.txt".to_string()).readiness(true, true);
    assert!(t.model_ext_wrong);
}

#[test]
fn toggles_and_setters() {
    let mut c = base();
    c.toggle_pause_media();
    assert!(c.is_pause_media_enabled());
    c.set_prefix_space(true).set_auto_enter(true).set_no_speech(true);
    assert!(c.is_prefix_space_enabled() && c.is_auto_enter_enabled() && c.is_no_speech_enabled());
    c.set_auto_capitalize(false).set_french_typography(false);
    assert!(!c.is_auto_capitalize_enabled() && !c.is_french_typography_enabled());
    c.set_model("x/ggml-small.bin".to_string());
    assert_eq!(c.model_name(), "ggml-small.bin");
    c.set_microphone(Some("Mic".to_string()));
    assert_eq!(c.microphone_display(), "Mic");
    let b = base().with_beep(false);
    assert!(!b.is_beep_enabled());
}

#[test]
fn joining() {
    let parts = vec!["a".to_string(), "b".to_string(), "c".to_string()];
    assert_eq!(join_strings(&parts, ", "), "a, b, c");
    assert_eq!(join_strings(&Vec::new(), ", "), "");
}

#[test]
fn plain_model_paths_compare_by_text() {
    let a = base().clone_with_model("models/ggml-medium.bin".to_string());
    let b = base().clone_with_model("models/ggml-large-v3.bin".to_string());
    assert!(!a.is_same_model(&b));
    assert!(a.is_same_model(&a.duplicate()));
    assert!(a.has_custom_model_path("/opt/dictum/models/ggml-medium.bin"));
    assert!(!a.has_custom_model_path("models/ggml-medium.bin"));
    assert!(base().has_custom_model_path("models/other.bin"));
}
