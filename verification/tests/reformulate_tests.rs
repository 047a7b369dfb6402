use dictum::reformulate::{endpoint, reformulate_prompt, reformulated, style_instruction, styles};

#[test]
fn seven_styles() {
    let s = styles();
    assert_eq!(s.len(), 7);
    assert_eq!(s[0], ("formel", "Formel", "Reformule ce texte de manière formelle et professionnelle"));
    assert_eq!(s[6].0, "correction");
}

#[test]
fn instructions_by_key() {
    assert_eq!(style_instruction("tweet"), "Condense ce texte en 280 caractères maximum pour Twitter/X");
    assert_eq!(style_instruction("inconnu"), "Reformule ce texte");
}

#[test]
fn prompt_text() {
    assert_eq!(
        reformulate_prompt("salut", "resume"),
        "Résume ce texte en 1-2 phrases concises :\n\nsalut\n\nRéponds uniquement avec le texte reformulé, sans commentaire ni explication."
    );
}

#[test]
fn endpoints_drop_trailing_slashes() {
    assert_eq!(endpoint("http://localhost:11434//", "/api/tags"), "http://localhost:11434/api/tags");
    assert_eq!(endpoint("http://localhost:11434", "/api/generate"), "http://localhost:11434/api/generate");
}

#[test]
fn reply_text() {
    assert_eq!(reformulated(Some("  Bonjour.  ")), Ok("Bonjour.".to_string()));
    assert_eq!(reformulated(Some("   ")), Err("Réponse vide d'Ollama".to_string()));
    assert_eq!(reformulated(None), Err("Réponse vide d'Ollama".to_string()));
}

#[test]
fn ollama_replies_are_read_in_the_library() {
    assert_eq!(dictum::reformulate::reformulated_reply(r#"{"response":"  Bonjour.  ","done":true}"#), Ok("Bonjour.".to_string()));
    assert_eq!(dictum::reformulate::reformulated_reply(r#"{"response":"   "}"#), Err("Réponse vide d'Ollama".to_string()));
    assert_eq!(dictum::reformulate::reformulated_reply(r#"{"done":true}"#), Err("Réponse vide d'Ollama".to_string()));
    let e = dictum::reformulate::reformulated_reply("pas du json").unwrap_err();
    assert!(e.starts_with("Réponse Ollama invalide : "));
    assert!(e.len() > "Réponse Ollama invalide : ".len());
}

#[test]
fn model_names_in_order() {
    let body = r#"{"models":[{"name":"llama3:latest"},{"size":3},{"name":"mistral"},{"name":7}]}"#;
    assert_eq!(dictum::reformulate::model_names(body), vec!["llama3:latest".to_string(), "mistral".to_string()]);
    assert!(dictum::reformulate::model_names(r#"{"models":{}}"#).is_empty());
    assert!(dictum::reformulate::model_names("404 page").is_empty());
}
