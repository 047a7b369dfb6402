use dictum::live::{clean_stream_output, is_hallucination, regex_remove_timestamps, LiveState, StreamFilter};

#[test]
fn brackets_are_removed() {
    assert_eq!(regex_remove_timestamps("[00:00:01.000 --> 00:00:03.000]  Bonjour"), "  Bonjour");
    assert_eq!(regex_remove_timestamps("a[b]c[d"), "ac");
    assert_eq!(regex_remove_timestamps("sans crochets"), "sans crochets");
}

#[test]
fn stream_line_is_cleaned() {
    assert_eq!(clean_stream_output("\u{1b}[2K\u{1b}[0m  Bonjour   le   monde "), "Bonjour le monde");
    assert_eq!(clean_stream_output("[00:00:00.000 --> 00:00:02.000]   Salut  toi"), "Salut toi");
}

#[test]
fn tags_give_nothing() {
    assert_eq!(clean_stream_output("(musique)"), "");
    assert_eq!(clean_stream_output("[BLANK_AUDIO]"), "");
    assert_eq!(clean_stream_output("   "), "");
}

#[test]
fn hallucination_needs_four_words_and_a_majority() {
    assert!(!is_hallucination("merci merci merci"));
    assert!(is_hallucination("merci merci merci oui"));
    assert!(!is_hallucination("merci merci oui non"));
    assert!(!is_hallucination("un deux trois quatre cinq"));
    assert!(is_hallucination("a a a b c"));
}

#[test]
fn stream_filter_skips_repeats_and_noise() {
    let mut f = StreamFilter::new();
    assert_eq!(f.accept("Bonjour"), Some("Bonjour".to_string()));
    assert_eq!(f.accept("  Bonjour "), None);
    assert_eq!(f.accept("(rires)"), None);
    assert_eq!(f.accept("oui oui oui oui"), None);
    assert_eq!(f.accept("Au revoir"), Some("Au revoir".to_string()));
    assert_eq!(f.accept("Bonjour"), Some("Bonjour".to_string()));
    assert_eq!(f.last_injected, "Bonjour");
}

#[test]
fn live_state_compares() {
    assert_eq!(LiveState::Idle, LiveState::Idle);
    assert_ne!(LiveState::Idle, LiveState::Running);
}
