use dictum::config::Config;
use dictum::history::History;
use dictum::pipeline::{take_update, Pipeline, StartDecision, StopDecision};
use dictum::substitution::french_defaults;
use dictum::updater::UpdateInfo;

#[test]
fn start_is_refused_while_paused_or_busy() {
    let mut p = Pipeline::new();
    assert_eq!(p.on_record_start(), StartDecision::Record);
    p.set_transcribing(true);
    assert_eq!(p.on_record_start(), StartDecision::Busy);
    assert!(p.toggle_pause());
    assert_eq!(p.on_record_start(), StartDecision::Paused);
    p.set_transcribing(false);
    assert_eq!(p.on_record_start(), StartDecision::Paused);
    assert!(!p.toggle_pause());
    assert_eq!(p.on_record_start(), StartDecision::Record);
}

#[test]
fn short_recordings_are_dropped() {
    let mut p = Pipeline::new();
    p.recording_started();
    assert!(p.recording);
    assert_eq!(p.on_record_stop(299, 300), StopDecision::TooShort);
    assert!(!p.recording);
    assert_eq!(p.on_record_stop(300, 300), StopDecision::Transcribe);
    assert!(!Pipeline::enough_samples(1599));
    assert!(Pipeline::enough_samples(1600));
}

#[test]
fn transcription_goes_to_history_after_substitutions() {
    let mut c = Config::defaults_at("m.bin".to_string());
    c.substitutions = french_defaults();
    c.max_history = 2;
    let mut p = Pipeline::new();
    let mut h = History::new();
    assert_eq!(p.on_transcribed(&c, &mut h, "", 1), None);
    assert_eq!(p.session_count, 0);
    assert!(h.is_empty());
    assert_eq!(p.on_transcribed(&c, &mut h, "ok pk pas", 10), Some("d'accord pourquoi pas".to_string()));
    assert_eq!(p.on_transcribed(&c, &mut h, "b", 11), Some("b".to_string()));
    assert_eq!(p.on_transcribed(&c, &mut h, "c", 12), Some("c".to_string()));
    assert_eq!(p.session_count, 3);
    assert_eq!(h.all_texts(), vec!["c".to_string(), "b".to_string()]);
    assert_eq!(h.last_timestamp(), Some(12));
}

#[test]
fn an_update_is_taken_once() {
    let mut slot = Some(UpdateInfo {
        version: "1.1.0".to_string(),
        url: "u".to_string(),
        installer_url: "i".to_string(),
        installer_size: 3,
    });
    assert_eq!(take_update(&mut slot).map(|u| u.version), Some("1.1.0".to_string()));
    assert!(take_update(&mut slot).is_none());
}
