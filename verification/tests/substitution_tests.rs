use dictum::config::Substitution;
use dictum::substitution::{apply, french_defaults};
use dictum::typography::{apply_french_typography, capitalize_first, replace_quotes_french};

fn rule(from: &str, to: &str, ci: bool) -> Substitution {
    Substitution { from: from.to_string(), to: to.to_string(), case_insensitive: ci }
}

#[test]
fn no_rules_keep_the_text() {
    assert_eq!(apply(&[], "Tel Quel"), "Tel Quel");
    assert_eq!(apply(&[rule("", "x", true)], "Tel Quel"), "Tel Quel");
}

#[test]
fn french_defaults_expand_abbreviations() {
    let rules = french_defaults();
    assert_eq!(rules.len(), 15);
    assert_eq!(apply(&rules, "jsuis là asap, svp"), "je suis là dès que possible, s'il vous plaît");
    assert_eq!(apply(&rules, "PK pas"), "pourquoi pas");
}

#[test]
fn longer_rules_go_first() {
    let rules = vec![rule("a", "1", false), rule("abc", "X", false), rule("ab", "Y", false)];
    assert_eq!(apply(&rules, "abc ab a"), "X Y 1");
}

#[test]
fn case_sensitive_rules_match_exactly() {
    let rules = vec![rule("Euh", "", false)];
    assert_eq!(apply(&rules, "Euh euh Euh"), " euh ");
}

#[test]
fn matches_inside_words_are_replaced() {
    assert_eq!(apply(&[rule("dc", "donc", true)], "aDCb"), "adoncb");
}

#[test]
fn capitalisation() {
    assert_eq!(capitalize_first("été"), "Été");
    assert_eq!(capitalize_first(""), "");
    assert_eq!(capitalize_first("ßa"), "SSa");
}

#[test]
fn quotes_alternate() {
    let out: String = replace_quotes_french(&"a \"b\" \"c".chars().collect::<Vec<char>>()).into_iter().collect();
    assert_eq!(out, "a «\u{a0}b\u{a0}» «\u{a0}c");
}

#[test]
fn typography_scenarios() {
    assert_eq!(apply_french_typography("Quoi ? Non !"), "Quoi\u{a0}? Non\u{a0}!");
    assert_eq!(apply_french_typography("Attends..."), "Attends\u{2026}");
    assert_eq!(apply_french_typography("-pas de tiret"), "-pas de tiret");
}

#[test]
fn case_insensitive_rules_search_the_whole_lowercased_text() {
    assert_eq!(apply(&[rule("σ", "X", true)], "ΑΣ"), "ΑΣ");
    assert_eq!(apply(&[rule("ς", "X", true)], "ΑΣ"), "ΑX");
    assert_eq!(apply(&[rule("ok", "d'accord", true)], "Ok OK"), "d'accord d'accord");
    // Lowercasing "İ" adds a byte: offsets after it no longer line up, and a
    // match there cannot be cut out of the text, which is left as it is.
    assert_eq!(apply(&[rule("ok", "d'accord", true)], "İ ok"), "İ ok");
    assert_eq!(apply(&[rule("ok", "d'accord", true)], "O\u{212A} merci"), "O\u{212A} merci");
    // A match before the shift is replaced as usual.
    assert_eq!(apply(&[rule("ab", "X", true)], "abİ"), "Xİ");
    assert_eq!(apply(&[rule("é", "e", true)], "ÉtÉ"), "ete");
}
