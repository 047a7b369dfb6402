use dictum::config::{Config, Readiness, Substitution};
use dictum::downloader::{first_binary_step, next_binary_step, BinaryStep, Manifest, ModelEntry};
use dictum::history::{History, HistoryEntry};
use dictum::hotkey::{key_from_str, Key};
use dictum::live::{stream_args, stream_threads};
use dictum::reformulate::ollama_request_body;
use dictum::setup::download_problem;
use dictum::substitution::apply;
use dictum::transcript::whisper_output_text;

fn base() -> Config {
    Config::defaults_at("models/ggml-medium.bin".to_string())
}

#[test]
fn live_stream_arguments() {
    let c = base();
    assert_eq!(
        stream_args(&c, Some(16)),
        vec![
            "--model", "models/ggml-medium.bin", "--threads", "4", "--step", "3000", "--length", "10000",
            "--keep", "200", "--language", "auto", "--print-special", "false",
        ]
    );
    assert_eq!(stream_threads(&c, Some(2)), 2);
    assert_eq!(stream_threads(&c, None), 4);
    let mut six = base();
    six.whisper_threads = 6;
    assert_eq!(stream_threads(&six, Some(2)), 6);
}

fn manifest() -> Manifest {
    Manifest {
        version: "1".to_string(),
        models: vec![(
            "medium".to_string(),
            ModelEntry { url: "u".to_string(), size_bytes: 1, sha256: String::new(), description: String::new() },
        )],
        binaries: vec![],
    }
}

#[test]
fn wizard_download_problems() {
    let m = manifest();
    assert_eq!(download_problem(false, Some(&m), "medium"), Some("Pas de connexion internet. Vérifier le réseau.".to_string()));
    assert_eq!(download_problem(true, None, "medium"), Some("Manifest non chargé.".to_string()));
    assert_eq!(download_problem(true, Some(&m), "large-v3"), Some("Modèle 'large-v3' absent du manifest.".to_string()));
    assert_eq!(download_problem(true, Some(&m), "medium"), None);
}

#[test]
fn ollama_body() {
    assert_eq!(
        ollama_request_body("llama3", "Dis \"oui\"\n"),
        r#"{"model":"llama3","options":{"num_predict":500,"temperature":0.7},"prompt":"Dis \"oui\"\n","stream":false}"#
    );
    let v: serde_json::Value = serde_json::from_str(&ollama_request_body("m", "p")).expect("json");
    assert_eq!(v["options"]["temperature"].as_f64(), Some(0.7));
    assert_eq!(v["stream"].as_bool(), Some(false));
}

#[test]
fn ascii_key_names_ignore_case() {
    assert_eq!(key_from_str("f10"), Key::F10);
    assert_eq!(key_from_str("space"), key_from_str("SPACE"));
}

#[test]
fn twelve_pushes_keep_the_ten_newest() {
    let mut h = History::new();
    for i in 0..12u64 {
        h.push_entry(HistoryEntry { text: format!("t{}", i), timestamp: i }, 10);
    }
    let texts: Vec<String> = h.all_texts();
    let expected: Vec<String> = (2..12).rev().map(|i| format!("t{}", i)).collect();
    assert_eq!(texts, expected);
}

#[test]
fn absent_rules_change_nothing() {
    let rules = vec![
        Substitution { from: "pk".to_string(), to: "pourquoi".to_string(), case_insensitive: true },
        Substitution { from: "Dc".to_string(), to: "donc".to_string(), case_insensitive: false },
    ];
    assert_eq!(apply(&rules, "bonjour dc à tous"), "bonjour dc à tous");
    assert_eq!(apply(&[], "PK"), "PK");
}

#[test]
fn whisper_text_is_tidy() {
    let t = whisper_output_text("  a\t b\n\n\x1b[31mc\x1b[0m  d \r\n e  ");
    assert_eq!(t, "a b c d e");
    assert!(!t.contains("  ") && !t.contains('\x1b') && t.trim() == t);
}

#[test]
fn plain_model_paths_are_read_the_same_everywhere() {
    let c = base();
    assert_eq!(c.model_name(), "ggml-medium.bin");
    assert_eq!(c.whisper_speed_label(), "normal");
    assert_eq!(c.model_size_mb_estimate(), 1500);
    let txt = base().clone_with_model("models/model.txt".to_string());
    assert!(txt.readiness(true, true).model_ext_wrong);
    assert!(!base().readiness(true, true).model_ext_wrong);
    let hidden = base().clone_with_model("models/.bin".to_string());
    assert!(!hidden.readiness(true, true).model_ext_wrong);
    assert_eq!(txt.sanitized("models/ggml-medium.bin").model_path, "models/ggml-medium.bin");
    let noext = base().clone_with_model("models/model".to_string());
    assert_eq!(noext.sanitized("d.bin").model_path, "models/model");
}

#[test]
fn binary_downloads_stop_at_the_first_failure() {
    assert!(matches!(first_binary_step(0), BinaryStep::Done));
    assert!(matches!(first_binary_step(3), BinaryStep::Fetch(0)));
    assert!(matches!(next_binary_step(3, 0, Ok(())), BinaryStep::Fetch(1)));
    assert!(matches!(next_binary_step(3, 2, Ok(())), BinaryStep::Done));
    match next_binary_step(3, 1, Err("HTTP 404".to_string())) {
        BinaryStep::Failed(m) => assert_eq!(m, "HTTP 404"),
        _ => panic!("a failure stops the downloads"),
    }
}

#[test]
fn default_model_file_name() {
    assert_eq!(dictum::config::default_model_file(), "ggml-medium.bin");
}

#[test]
fn push_keeps_the_ten_most_recent_over_many_calls() {
    let mut h = History::new();
    for i in 0..13 {
        h.push(format!("dictée {}", i));
    }
    assert_eq!(h.len(), 10);
    let expected: Vec<String> = (3..13).rev().map(|i| format!("dictée {}", i)).collect();
    assert_eq!(h.all_texts(), expected);
    let mut few = History::new();
    few.push("a".to_string());
    few.push("b".to_string());
    assert_eq!(few.all_texts(), vec!["b".to_string(), "a".to_string()]);
}

#[test]
fn validate_reports_one_message_per_failed_check() {
    let all = Readiness { model_present: true, cli_present: true, model_ext_wrong: false };
    assert!(base().validate(&all, "0.005", "0.0").is_empty());
    let mut c = base();
    c.hotkey.key = String::new();
    c.max_record_secs = 0;
    c.inject_delay_ms = 600;
    let none = Readiness { model_present: false, cli_present: false, model_ext_wrong: true };
    assert_eq!(c.validate(&none, "0.005", "0.0").len(), 5);
}
