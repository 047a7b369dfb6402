use dictum::config::Config;
use dictum::inject::{inject_delay, injection_plan, prepare_injection, Keystroke};

fn cfg() -> Config {
    Config::defaults_at("models/ggml-medium.bin".to_string())
}

fn plan(text: &str, auto_enter: bool) -> Vec<Option<String>> {
    injection_plan(text, auto_enter)
        .into_iter()
        .map(|k| match k {
            Keystroke::Text(s) => Some(s),
            Keystroke::Enter => None,
        })
        .collect()
}

#[test]
fn text_is_trimmed_capitalised_and_typeset() {
    let c = cfg();
    assert_eq!(prepare_injection("  bonjour ça va ? ", &c), Some("Bonjour ça va\u{a0}?".to_string()));
}

#[test]
fn blank_text_types_nothing() {
    assert_eq!(prepare_injection(" \n\t ", &cfg()), None);
    assert_eq!(prepare_injection("", &cfg()), None);
}

#[test]
fn first_letter_is_capitalised_before_the_leading_space() {
    let mut c = cfg();
    c.prefix_space = true;
    c.french_typography = false;
    assert_eq!(prepare_injection("bonjour", &c), Some(" Bonjour".to_string()));
    c.prefix_space = false;
    assert_eq!(prepare_injection("bonjour", &c), Some("Bonjour".to_string()));
    c.auto_capitalize = false;
    assert_eq!(prepare_injection("bonjour", &c), Some("bonjour".to_string()));
}

#[test]
fn french_typography_rules() {
    let mut c = cfg();
    c.auto_capitalize = false;
    assert_eq!(prepare_injection("- c'est \"vrai\"...", &c), Some("\u{2013} c\u{2019}est «\u{a0}vrai\u{a0}»\u{2026}".to_string()));
    assert_eq!(prepare_injection("a ; b : c ! d ?", &c), Some("a\u{a0}; b\u{a0}: c\u{a0}! d\u{a0}?".to_string()));
}

#[test]
fn delay_defaults_to_eighty() {
    let mut c = cfg();
    c.inject_delay_ms = 0;
    assert_eq!(inject_delay(&c), 80);
    c.inject_delay_ms = 250;
    assert_eq!(inject_delay(&c), 250);
}

#[test]
fn lines_are_separated_by_enter() {
    assert_eq!(plan("a\nb", false), vec![Some("a".to_string()), None, Some("b".to_string())]);
    assert_eq!(plan("a\n", false), vec![Some("a".to_string()), None]);
    assert_eq!(plan("a\n\nb", true), vec![Some("a".to_string()), None, None, Some("b".to_string()), None]);
}

#[test]
fn empty_text_plan() {
    assert_eq!(plan("", false), Vec::<Option<String>>::new());
    assert_eq!(plan("", true), vec![None]);
}

#[test]
fn long_lines_go_in_chunks_of_500_characters() {
    let line = "x".repeat(1100);
    assert_eq!(
        plan(&line, false),
        vec![Some("x".repeat(500)), Some("x".repeat(500)), Some("x".repeat(100))]
    );
    let exact = "y".repeat(500);
    assert_eq!(plan(&exact, false), vec![Some(exact.clone())]);
}

#[test]
fn chunks_count_characters_not_bytes() {
    let line = format!("a{}", "é".repeat(600));
    let expected = vec![Some(format!("a{}", "é".repeat(499))), Some("é".repeat(101))];
    assert_eq!(plan(&line, false), expected);
    let short = "é".repeat(400);
    assert_eq!(plan(&short, false), vec![Some(short.clone())]);
}
