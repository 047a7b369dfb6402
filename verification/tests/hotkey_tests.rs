use dictum::config::HotkeyConfig;
use dictum::hotkey::{key_from_str, HotkeyTracker, Key, KeyEvent};
use dictum::pipeline::AppEvent;

fn config(key: &str, ctrl: bool, alt: bool, shift: bool) -> HotkeyConfig {
    HotkeyConfig { ctrl, alt, shift, key: key.to_string() }
}

#[test]
fn key_names_ignore_case() {
    assert_eq!(key_from_str("f9"), Key::F9);
    assert_eq!(key_from_str("F12"), Key::F12);
    assert_eq!(key_from_str("Space"), Key::Space);
    assert_eq!(key_from_str("pageDown"), Key::PageDown);
    assert_eq!(key_from_str("num7"), Key::Num7);
}

#[test]
fn key_aliases() {
    assert_eq!(key_from_str("backtick"), Key::BackQuote);
    assert_eq!(key_from_str("Del"), Key::Delete);
    assert_eq!(key_from_str("return"), Key::Return);
    assert_eq!(key_from_str("esc"), Key::Escape);
    assert_eq!(key_from_str("NumpadEnter"), Key::KpReturn);
    assert_eq!(key_from_str("numpadminus"), Key::KpMinus);
}

#[test]
fn unknown_key_falls_back_to_f9() {
    assert_eq!(key_from_str("F13"), Key::F9);
    assert_eq!(key_from_str(""), Key::F9);
    assert_eq!(key_from_str("A"), Key::F9);
}

#[test]
fn hold_and_release_start_and_stop() {
    let mut t = HotkeyTracker::new(&config("F9", false, false, false));
    assert_eq!(t.on_event(KeyEvent::Press(Key::F9)), Some(AppEvent::RecordStart));
    // auto-repeat while held does nothing
    assert_eq!(t.on_event(KeyEvent::Press(Key::F9)), None);
    assert_eq!(t.on_event(KeyEvent::Release(Key::F9)), Some(AppEvent::RecordStop));
    assert_eq!(t.on_event(KeyEvent::Release(Key::F9)), None);
    assert_eq!(t.on_event(KeyEvent::Press(Key::F10)), None);
}

#[test]
fn modifiers_are_required() {
    let mut t = HotkeyTracker::new(&config("space", true, false, true));
    assert_eq!(t.on_event(KeyEvent::Press(Key::Space)), None);
    assert_eq!(t.on_event(KeyEvent::Press(Key::ControlLeft)), None);
    assert_eq!(t.on_event(KeyEvent::Press(Key::Space)), None);
    assert_eq!(t.on_event(KeyEvent::Press(Key::ShiftRight)), None);
    assert_eq!(t.on_event(KeyEvent::Press(Key::Space)), Some(AppEvent::RecordStart));
    // releasing a modifier does not stop; releasing the key does
    assert_eq!(t.on_event(KeyEvent::Release(Key::ControlLeft)), None);
    assert_eq!(t.on_event(KeyEvent::Release(Key::Space)), Some(AppEvent::RecordStop));
}

#[test]
fn requests_alternate_on_a_long_run() {
    let mut t = HotkeyTracker::new(&config("F9", false, true, false));
    let events = [
        KeyEvent::Press(Key::F9),
        KeyEvent::Press(Key::AltGr),
        KeyEvent::Press(Key::F9),
        KeyEvent::Release(Key::AltGr),
        KeyEvent::Press(Key::F9),
        KeyEvent::Release(Key::F9),
        KeyEvent::Release(Key::F9),
        KeyEvent::Press(Key::Other(65)),
        KeyEvent::Press(Key::Alt),
        KeyEvent::Press(Key::F9),
        KeyEvent::Release(Key::F9),
    ];
    let mut sent = Vec::new();
    for e in events.iter() {
        if let Some(a) = t.on_event(*e) {
            sent.push(a);
        }
    }
    assert_eq!(
        sent,
        vec![AppEvent::RecordStart, AppEvent::RecordStop, AppEvent::RecordStart, AppEvent::RecordStop]
    );
    assert!(!t.active);
}
