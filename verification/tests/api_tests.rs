use dictum::api::{
    error_json, history_json, inject_text_of, paused_json, reformulate_request, reformulate_request_of, result_json, route, status_json, Route,
    API_PORT,
};
use dictum::history::{History, HistoryEntry};

#[test]
fn routes() {
    assert_eq!(route("GET", "/status"), Route::Status);
    assert_eq!(route("GET", "/status?x=1&y=2"), Route::Status);
    assert_eq!(route("GET", "/history"), Route::History);
    assert_eq!(route("GET", "/config"), Route::Config);
    assert_eq!(route("POST", "/inject"), Route::Inject);
    assert_eq!(route("POST", "/pause"), Route::Pause);
    assert_eq!(route("POST", "/reload"), Route::Reload);
    assert_eq!(route("POST", "/reformulate?style=tweet"), Route::Reformulate);
    assert_eq!(route("OPTIONS", "/anything"), Route::Preflight);
    assert_eq!(route("POST", "/status"), Route::NotFound);
    assert_eq!(route("GET", "/statusx"), Route::NotFound);
    assert_eq!(route("GET", "?/status"), Route::NotFound);
    assert_eq!(API_PORT, 44880);
}

#[test]
fn status_body() {
    assert_eq!(
        status_json(true, false, false, 3, "Ctrl+F9", "ggml-medium.bin", "fr"),
        "{\"recording\":true,\"transcribing\":false,\"paused\":false,\"session_count\":3,\"hotkey\":\"Ctrl+F9\",\"model\":\"ggml-medium.bin\",\"language\":\"fr\",\"version\":\"1.0.0\"}"
    );
}

#[test]
fn history_body_escapes_texts() {
    let mut h = History::new();
    h.push_entry(HistoryEntry { text: "un".to_string(), timestamp: 5 }, 10);
    h.push_entry(HistoryEntry { text: "a \"b\"\n\\ \u{1}\té".to_string(), timestamp: 7 }, 10);
    assert_eq!(
        history_json(&h),
        "[{\"text\":\"a \\\"b\\\"\\n\\\\ \\u0001\\té\",\"timestamp\":7},{\"text\":\"un\",\"timestamp\":5}]"
    );
    assert_eq!(history_json(&History::new()), "[]");
}

#[test]
fn pause_body() {
    assert_eq!(paused_json(true), "{\"paused\":true}");
    assert_eq!(paused_json(false), "{\"paused\":false}");
}

#[test]
fn inject_body_is_trimmed() {
    assert_eq!(inject_text_of("  salut \n"), Some("salut".to_string()));
    assert_eq!(inject_text_of(" \n "), None);
}

#[test]
fn reformulate_request_defaults() {
    assert_eq!(reformulate_request(Some("texte"), None), Some(("texte".to_string(), "formel".to_string())));
    assert_eq!(
        reformulate_request(Some("texte"), Some("tweet")),
        Some(("texte".to_string(), "tweet".to_string()))
    );
    assert_eq!(reformulate_request(Some(""), Some("tweet")), None);
    assert_eq!(reformulate_request(None, None), None);
}

#[test]
fn result_and_error_bodies() {
    assert_eq!(result_json("Bonjour \"toi\""), "{\"result\":\"Bonjour \\\"toi\\\"\"}");
    assert_eq!(error_json("Réponse vide d'Ollama"), "{\"error\":\"Réponse vide d'Ollama\"}");
    assert_eq!(error_json("\u{7f}\u{1f}"), "{\"error\":\"\u{7f}\\u001f\"}");
}

#[test]
fn reformulate_body_is_read_from_json() {
    assert_eq!(
        reformulate_request_of(r#"{"text":"salut toi","style":"pro"}"#),
        Some(("salut toi".to_string(), "pro".to_string()))
    );
    assert_eq!(
        reformulate_request_of(r#"{"text":"a \"b\""}"#),
        Some(("a \"b\"".to_string(), "formel".to_string()))
    );
    assert_eq!(reformulate_request_of(r#"{"text":""}"#), None);
    assert_eq!(reformulate_request_of(r#"{"text":3}"#), None);
    assert_eq!(reformulate_request_of(r#"{"style":"pro"}"#), None);
    assert_eq!(reformulate_request_of("salut"), None);
    assert_eq!(
        reformulate_request_of(r#"{"text":"x","style":7}"#),
        Some(("x".to_string(), "formel".to_string()))
    );
}
