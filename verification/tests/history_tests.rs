use dictum::history::{format_timestamp_at, History, HistoryEntry};

fn entry(text: &str, timestamp: u64) -> HistoryEntry {
    HistoryEntry { text: text.to_string(), timestamp }
}

#[test]
fn timestamp_same_day_shows_time_only() {
    let ts = 5 * 3600 + 7 * 60 + 42;
    assert_eq!(format_timestamp_at(ts, ts), "05:07");
    assert_eq!(format_timestamp_at(ts, ts + 86400), "05:07");
}

#[test]
fn timestamp_older_than_a_day_shows_days() {
    let ts = 23 * 3600 + 59 * 60;
    assert_eq!(format_timestamp_at(ts, ts + 2 * 86400 + 5), "J-2 23:59");
    assert_eq!(format_timestamp_at(ts, ts + 86401), "J-1 23:59");
}

#[test]
fn timestamp_in_the_future_counts_as_now() {
    assert_eq!(format_timestamp_at(3600, 0), "01:00");
}

#[test]
fn push_puts_newest_first_and_keeps_the_limit() {
    let mut h = History::new();
    h.push_with_limit("a".to_string(), 2);
    h.push_with_limit("b".to_string(), 2);
    h.push_with_limit("c".to_string(), 2);
    assert_eq!(h.all_texts(), vec!["c".to_string(), "b".to_string()]);
    assert_eq!(h.len(), 2);
}

#[test]
fn push_with_zero_limit_keeps_one() {
    let mut h = History::new();
    h.push_with_limit("a".to_string(), 0);
    h.push_with_limit("b".to_string(), 0);
    assert_eq!(h.all_texts(), vec!["b".to_string()]);
}

#[test]
fn push_keeps_the_ten_most_recent() {
    let mut h = History::new();
    for i in 0..12 {
        h.push(format!("t{}", i));
    }
    assert_eq!(h.len(), 10);
    assert_eq!(h.last_text(), Some("t11".to_string()));
    assert_eq!(h.get_by_index(9).map(|e| e.text.clone()), Some("t2".to_string()));
}

#[test]
fn push_entry_keeps_its_timestamp() {
    let mut h = History::new();
    h.push_entry(entry("x", 42), 10);
    assert_eq!(h.last_timestamp(), Some(42));
    assert_eq!(h.entries().len(), 1);
}

#[test]
fn empty_history_accessors() {
    let h = History::new();
    assert!(h.is_empty());
    assert_eq!(h.len(), 0);
    assert_eq!(h.last_text(), None);
    assert_eq!(h.last_timestamp(), None);
    assert!(h.get_by_index(0).is_none());
    assert_eq!(h.average_length(), 0);
    assert_eq!(h.total_chars(), 0);
}

#[test]
fn lengths_are_counted_in_bytes() {
    let mut h = History::new();
    h.push_entry(entry("ab", 1), 10);
    h.push_entry(entry("été", 2), 10);
    assert_eq!(h.total_chars(), 7);
    assert_eq!(h.average_length(), 3);
}

#[test]
fn search_ignores_letter_case() {
    let mut h = History::new();
    h.push_entry(entry("Bonjour Monde", 1), 10);
    h.push_entry(entry("salut", 2), 10);
    h.push_entry(entry("le MONDE entier", 3), 10);
    let found: Vec<String> = h.search("monde").iter().map(|e| e.text.clone()).collect();
    assert_eq!(found, vec!["le MONDE entier".to_string(), "Bonjour Monde".to_string()]);
    assert!(h.search("absent").is_empty());
}

#[test]
fn search_uses_unicode_lowercase() {
    let mut h = History::new();
    h.push_entry(entry("ÉTÉ chaud", 1), 10);
    assert_eq!(h.search("été").len(), 1);
}

#[test]
fn clear_empties() {
    let mut h = History::new();
    h.push("a".to_string());
    h.clear();
    assert!(h.is_empty());
}

#[test]
fn display_of_empty_history() {
    assert_eq!(History::new().as_display_string_at(0), "Aucun historique.");
}

#[test]
fn display_numbers_entries_newest_first() {
    let ts = 5 * 3600 + 7 * 60;
    let mut h = History::new();
    h.push_entry(entry("premier", ts), 10);
    h.push_entry(entry("second", ts), 10);
    assert_eq!(h.as_display_string_at(ts), "1. [05:07]  second\n2. [05:07]  premier");
}

#[test]
fn display_cuts_long_texts_at_117_characters() {
    let long = "a".repeat(130);
    let mut h = History::new();
    h.push_entry(entry(&long, 0), 10);
    let expected = format!("1. [00:00]  {}...", "a".repeat(117));
    assert_eq!(h.as_display_string_at(0), expected);
    let exact = "b".repeat(120);
    let mut h2 = History::new();
    h2.push_entry(entry(&exact, 0), 10);
    assert_eq!(h2.as_display_string_at(0), format!("1. [00:00]  {}", exact));
    let accents = "é".repeat(130);
    let mut h3 = History::new();
    h3.push_entry(entry(&accents, 0), 10);
    assert_eq!(h3.as_display_string_at(0), format!("1. [00:00]  {}...", "é".repeat(117)));
    let short_accents = "é".repeat(120);
    let mut h4 = History::new();
    h4.push_entry(entry(&short_accents, 0), 10);
    assert_eq!(h4.as_display_string_at(0), format!("1. [00:00]  {}", short_accents));
}

#[test]
fn export_lists_sections() {
    let mut h = History::new();
    h.push_entry(entry("un", 60), 10);
    h.push_entry(entry("deux", 120), 10);
    assert_eq!(
        h.export_text_at(120),
        "# Historique Dictum — 2 entrée(s)\n\n## 1 — [00:02]\ndeux\n\n## 2 — [00:01]\nun\n"
    );
}

#[test]
fn export_of_empty_history_is_the_header() {
    assert_eq!(History::new().export_text_at(0), "# Historique Dictum — 0 entrée(s)\n\n");
}

#[test]
fn timestamp_against_the_clock() {
    let shown = dictum::history::format_timestamp(0);
    assert!(shown.starts_with("J-"));
    assert!(shown.ends_with(" 00:00"));
}
