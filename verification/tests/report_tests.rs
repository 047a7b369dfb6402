use dictum::config::{Config, Issue, Readiness};

fn defaults() -> Config {
    Config::defaults_at("C:/Dictum/models/ggml-medium.bin".to_string())
}

fn readiness(model: bool, cli: bool) -> Readiness {
    Readiness { model_present: model, cli_present: cli, model_ext_wrong: false }
}

#[test]
fn issue_messages() {
    let mut c = defaults();
    c.inject_delay_ms = 700;
    assert_eq!(c.issue_message(Issue::ModelMissing, "", ""), "Modèle absent : C:/Dictum/models/ggml-medium.bin");
    assert_eq!(c.issue_message(Issue::InjectDelayHigh, "", ""), "inject_delay_ms=700 élevé — injection lente");
    assert_eq!(
        c.issue_message(Issue::SilenceTooHigh, "1", ""),
        "silence_threshold=1 très élevé — aucune dictée passera"
    );
    assert_eq!(
        c.issue_message(Issue::TemperatureHigh, "", "0.9"),
        "whisper_temperature=0.9 élevé — risque d'hallucinations"
    );
    assert_eq!(
        c.issue_message(Issue::ModelNotBin, "", ""),
        "Modèle 'C:/Dictum/models/ggml-medium.bin' n'est pas un .bin"
    );
}

#[test]
fn validate_lists_messages_in_order() {
    let mut c = defaults();
    c.max_record_secs = 0;
    let v = c.validate(&readiness(true, false), "0.005", "0.0");
    assert_eq!(v, vec!["whisper-cli.exe manquant".to_string(), "max_record_secs = 0 invalide".to_string()]);
    assert!(defaults().validate(&readiness(true, true), "0.005", "0.0").is_empty());
}

#[test]
fn ready_message() {
    let c = defaults();
    assert_eq!(
        c.is_ready_message(&readiness(true, true), "0.005", "0.0"),
        "Dictum 1.0.0 prêt [score:85/100 — Très bon] — ggml-medium.bin"
    );
    assert_eq!(
        c.is_ready_message(&readiness(true, false), "0.005", "0.0"),
        "score:45/100 — 1 problème(s) : whisper-cli.exe manquant"
    );
}

#[test]
fn whisper_line() {
    let c = defaults();
    assert_eq!(
        c.whisper_config_display(Some(16), "0.0"),
        "threads=auto (max 8) temp=0.0 no_speech=false speed=normal"
    );
}

#[test]
fn full_status_block() {
    let c = defaults();
    assert_eq!(
        c.full_status(&readiness(true, true), Some(4), "0.0"),
        "Dictum v1.0.0 | Modèle: ggml-medium.bin [✓|~1500MB|Rapide] | Langue: Auto-détection | Hotkey: F9\n\
Whisper: threads=auto (max 4) temp=0.0 | Enregistrement: 300ms–30s | Silence: normal\n\
Injection: [majuscule+typo_fr] | Beep: 800Hz/600Hz 80ms"
    );
}

#[test]
fn diagnose_report() {
    let mut c = defaults();
    c.language = "fr".to_string();
    let r = readiness(false, true);
    assert_eq!(
        c.diagnose(&r, Some(2), "0.005", "0.0"),
        "=== Dictum 1.0.0 Diagnostic — Score: 40/100 (Basique) ===\n\
Modèle   : ✗ ggml-medium.bin\n\
CLI      : ✓ whisper-cli.exe\n\
Config   : ✓ v1\n\
Profil   : Français standard\n\
Threads  : auto (max 2)\n\
Silence  : normal\n\
Beep     : 800Hz/600Hz 80ms\n\
⚠ 1 problème(s) :\n  • Modèle absent : C:/Dictum/models/ggml-medium.bin\n==="
    );
}

#[test]
fn changes_against_defaults() {
    let c = defaults();
    assert!(c.changes_from_default("0.005").is_empty());
    assert_eq!(c.changes_summary_display("0.005"), "configuration par défaut");
    let mut d = defaults();
    d.language = "en".to_string();
    d.beep_enabled = false;
    d.silence_threshold_bits = 0.01f32.to_bits();
    d.max_record_secs = 60;
    d.add_substitution("a", "b", false);
    assert_eq!(
        d.changes_from_default("0.010"),
        vec![
            "langue: auto → en".to_string(),
            "beep: true → false".to_string(),
            "silence: 0.005 → 0.010".to_string(),
            "max_rec: 30s → 60s".to_string(),
            "substitutions: 1 règle(s)".to_string(),
        ]
    );
    assert_eq!(
        d.changes_summary_display("0.010"),
        "5 modification(s) : langue: auto → en, beep: true → false, silence: 0.005 → 0.010, max_rec: 30s → 60s, substitutions: 1 règle(s)"
    );
}

#[test]
fn model_file_names() {
    assert_eq!(Config::model_file_for("medium"), "ggml-medium.bin");
    assert_eq!(Config::model_file_for("custom.bin"), "custom.bin");
}
