//! The dictation hotkey: key names, and the press/release tracking that turns
//! keyboard events into start and stop requests.
use vstd::prelude::*;
use crate::config::HotkeyConfig;
use crate::pipeline::AppEvent;
use crate::text::{decimal, str_eq, to_uppercase, uppercase};

verus! {

/// A key of the keyboard, as the listener reports it: the keys that can be the
/// hotkey, the modifiers, and any other key by its scan code.
#[derive(Debug, Clone, Copy, PartialEq, Eq, Structural)]
pub enum Key {
    F1,
    F2,
    F3,
    F4,
    F5,
    F6,
    F7,
    F8,
    F9,
    F10,
    F11,
    F12,
    Space,
    Tab,
    Insert,
    Home,
    End,
    PageUp,
    PageDown,
    ScrollLock,
    Pause,
    CapsLock,
    BackQuote,
    Num0,
    Num1,
    Num2,
    Num3,
    Num4,
    Num5,
    Num6,
    Num7,
    Num8,
    Num9,
    Backspace,
    Delete,
    Return,
    Escape,
    NumLock,
    KpMinus,
    KpPlus,
    KpMultiply,
    KpDivide,
    KpReturn,
    ControlLeft,
    ControlRight,
    Alt,
    AltGr,
    ShiftLeft,
    ShiftRight,
    Other(u32),
}

/// A key going down or up.
#[derive(Debug, Clone, Copy, PartialEq, Eq, Structural)]
pub enum KeyEvent {
    Press(Key),
    Release(Key),
}

/// The key an upper-case key name stands for; unknown names give F9.
pub open spec fn key_named(n: Seq<char>) -> Key {
    if n == "F1"@ {
        Key::F1
    } else if n == "F2"@ {
        Key::F2
    } else if n == "F3"@ {
        Key::F3
    } else if n == "F4"@ {
        Key::F4
    } else if n == "F5"@ {
        Key::F5
    } else if n == "F6"@ {
        Key::F6
    } else if n == "F7"@ {
        Key::F7
    } else if n == "F8"@ {
        Key::F8
    } else if n == "F9"@ {
        Key::F9
    } else if n == "F10"@ {
        Key::F10
    } else if n == "F11"@ {
        Key::F11
    } else if n == "F12"@ {
        Key::F12
    } else if n == "SPACE"@ {
        Key::Space
    } else if n == "TAB"@ {
        Key::Tab
    } else if n == "INSERT"@ {
        Key::Insert
    } else if n == "HOME"@ {
        Key::Home
    } else if n == "END"@ {
        Key::End
    } else if n == "PAGEUP"@ {
        Key::PageUp
    } else if n == "PAGEDOWN"@ {
        Key::PageDown
    } else if n == "SCROLLLOCK"@ {
        Key::ScrollLock
    } else if n == "PAUSE"@ {
        Key::Pause
    } else if n == "CAPSLOCK"@ {
        Key::CapsLock
    } else if n == "BACKQUOTE"@ {
        Key::BackQuote
    } else if n == "BACKTICK"@ {
        Key::BackQuote
    } else if n == "NUM0"@ {
        Key::Num0
    } else if n == "NUM1"@ {
        Key::Num1
    } else if n == "NUM2"@ {
        Key::Num2
    } else if n == "NUM3"@ {
        Key::Num3
    } else if n == "NUM4"@ {
        Key::Num4
    } else if n == "NUM5"@ {
        Key::Num5
    } else if n == "NUM6"@ {
        Key::Num6
    } else if n == "NUM7"@ {
        Key::Num7
    } else if n == "NUM8"@ {
        Key::Num8
    } else if n == "NUM9"@ {
        Key::Num9
    } else if n == "BACKSPACE"@ {
        Key::Backspace
    } else if n == "DELETE"@ {
        Key::Delete
    } else if n == "DEL"@ {
        Key::Delete
    } else if n == "ENTER"@ {
        Key::Return
    } else if n == "RETURN"@ {
        Key::Return
    } else if n == "ESCAPE"@ {
        Key::Escape
    } else if n == "ESC"@ {
        Key::Escape
    } else if n == "NUMLOCK"@ {
        Key::NumLock
    } else if n == "KPMINUS"@ {
        Key::KpMinus
    } else if n == "NUMPADMINUS"@ {
        Key::KpMinus
    } else if n == "KPPLUS"@ {
        Key::KpPlus
    } else if n == "NUMPADPLUS"@ {
        Key::KpPlus
    } else if n == "KPMULTIPLY"@ {
        Key::KpMultiply
    } else if n == "NUMPADMULTIPLY"@ {
        Key::KpMultiply
    } else if n == "KPDIVIDE"@ {
        Key::KpDivide
    } else if n == "NUMPADDIVIDE"@ {
        Key::KpDivide
    } else if n == "KPRETURN"@ {
        Key::KpReturn
    } else if n == "NUMPADENTER"@ {
        Key::KpReturn
    } else {
        Key::F9
    }
}

fn key_named_exec(u: &str) -> (k: Key)
    ensures k == key_named(u@),
{
    if str_eq(u, "F1") {
        Key::F1
    } else if str_eq(u, "F2") {
        Key::F2
    } else if str_eq(u, "F3") {
        Key::F3
    } else if str_eq(u, "F4") {
        Key::F4
    } else if str_eq(u, "F5") {
        Key::F5
    } else if str_eq(u, "F6") {
        Key::F6
    } else if str_eq(u, "F7") {
        Key::F7
    } else if str_eq(u, "F8") {
        Key::F8
    } else if str_eq(u, "F9") {
        Key::F9
    } else if str_eq(u, "F10") {
        Key::F10
    } else if str_eq(u, "F11") {
        Key::F11
    } else if str_eq(u, "F12") {
        Key::F12
    } else if str_eq(u, "SPACE") {
        Key::Space
    } else if str_eq(u, "TAB") {
        Key::Tab
    } else if str_eq(u, "INSERT") {
        Key::Insert
    } else if str_eq(u, "HOME") {
        Key::Home
    } else if str_eq(u, "END") {
        Key::End
    } else if str_eq(u, "PAGEUP") {
        Key::PageUp
    } else if str_eq(u, "PAGEDOWN") {
        Key::PageDown
    } else if str_eq(u, "SCROLLLOCK") {
        Key::ScrollLock
    } else if str_eq(u, "PAUSE") {
        Key::Pause
    } else if str_eq(u, "CAPSLOCK") {
        Key::CapsLock
    } else if str_eq(u, "BACKQUOTE") {
        Key::BackQuote
    } else if str_eq(u, "BACKTICK") {
        Key::BackQuote
    } else if str_eq(u, "NUM0") {
        Key::Num0
    } else if str_eq(u, "NUM1") {
        Key::Num1
    } else if str_eq(u, "NUM2") {
        Key::Num2
    } else if str_eq(u, "NUM3") {
        Key::Num3
    } else if str_eq(u, "NUM4") {
        Key::Num4
    } else if str_eq(u, "NUM5") {
        Key::Num5
    } else if str_eq(u, "NUM6") {
        Key::Num6
    } else if str_eq(u, "NUM7") {
        Key::Num7
    } else if str_eq(u, "NUM8") {
        Key::Num8
    } else if str_eq(u, "NUM9") {
        Key::Num9
    } else if str_eq(u, "BACKSPACE") {
        Key::Backspace
    } else if str_eq(u, "DELETE") {
        Key::Delete
    } else if str_eq(u, "DEL") {
        Key::Delete
    } else if str_eq(u, "ENTER") {
        Key::Return
    } else if str_eq(u, "RETURN") {
        Key::Return
    } else if str_eq(u, "ESCAPE") {
        Key::Escape
    } else if str_eq(u, "ESC") {
        Key::Escape
    } else if str_eq(u, "NUMLOCK") {
        Key::NumLock
    } else if str_eq(u, "KPMINUS") {
        Key::KpMinus
    } else if str_eq(u, "NUMPADMINUS") {
        Key::KpMinus
    } else if str_eq(u, "KPPLUS") {
        Key::KpPlus
    } else if str_eq(u, "NUMPADPLUS") {
        Key::KpPlus
    } else if str_eq(u, "KPMULTIPLY") {
        Key::KpMultiply
    } else if str_eq(u, "NUMPADMULTIPLY") {
        Key::KpMultiply
    } else if str_eq(u, "KPDIVIDE") {
        Key::KpDivide
    } else if str_eq(u, "NUMPADDIVIDE") {
        Key::KpDivide
    } else if str_eq(u, "KPRETURN") {
        Key::KpReturn
    } else if str_eq(u, "NUMPADENTER") {
        Key::KpReturn
    } else {
        Key::F9
    }
}

/// The key a configured name stands for, letter case aside (the name is
/// upper-cased first); an unknown name falls back to F9.
pub fn key_from_str(s: &str) -> (k: Key)
    ensures
        k == key_named(uppercase(s@)),
        vstd::utf8::is_ascii_chars(s@) ==> k == key_named(s@.map_values(|c: char| crate::text::ascii_upper(c))),
{
    let u = to_uppercase(s);
    key_named_exec(u.as_str())
}

/// The hotkey listener's state: the key and modifiers it waits for, which
/// modifiers are down, and whether a recording was started by it.
#[derive(Debug, Clone, Copy, PartialEq, Eq, Structural)]
pub struct HotkeyTracker {
    pub target: Key,
    pub need_ctrl: bool,
    pub need_alt: bool,
    pub need_shift: bool,
    pub ctrl_down: bool,
    pub alt_down: bool,
    pub shift_down: bool,
    pub active: bool,
}

pub open spec fn is_ctrl(k: Key) -> bool {
    k == Key::ControlLeft || k == Key::ControlRight
}

pub open spec fn is_alt(k: Key) -> bool {
    k == Key::Alt || k == Key::AltGr
}

pub open spec fn is_shift(k: Key) -> bool {
    k == Key::ShiftLeft || k == Key::ShiftRight
}

/// The required modifiers are all down.
pub open spec fn mods_ok(t: HotkeyTracker) -> bool {
    (!t.need_ctrl || t.ctrl_down) && (!t.need_alt || t.alt_down) && (!t.need_shift || t.shift_down)
}

/// The listener's state after one event, and the request it sends, if any.
pub open spec fn step(t: HotkeyTracker, ev: KeyEvent) -> (HotkeyTracker, Option<AppEvent>) {
    match ev {
        KeyEvent::Press(k) => {
            if is_ctrl(k) {
                (HotkeyTracker { ctrl_down: true, ..t }, None)
            } else if is_alt(k) {
                (HotkeyTracker { alt_down: true, ..t }, None)
            } else if is_shift(k) {
                (HotkeyTracker { shift_down: true, ..t }, None)
            } else if k == t.target && mods_ok(t) && !t.active {
                (HotkeyTracker { active: true, ..t }, Some(AppEvent::RecordStart))
            } else {
                (t, None)
            }
        },
        KeyEvent::Release(k) => {
            if is_ctrl(k) {
                (HotkeyTracker { ctrl_down: false, ..t }, None)
            } else if is_alt(k) {
                (HotkeyTracker { alt_down: false, ..t }, None)
            } else if is_shift(k) {
                (HotkeyTracker { shift_down: false, ..t }, None)
            } else if k == t.target && t.active {
                (HotkeyTracker { active: false, ..t }, Some(AppEvent::RecordStop))
            } else {
                (t, None)
            }
        },
    }
}

/// The state after a run of events, and the requests sent, in order.
pub open spec fn run(t: HotkeyTracker, evs: Seq<KeyEvent>) -> (HotkeyTracker, Seq<AppEvent>)
    decreases evs.len(),
{
    if evs.len() == 0 {
        (t, seq![])
    } else {
        let (mid, sent) = run(t, evs.drop_last());
        let (last, out) = step(mid, evs.last());
        match out {
            Some(a) => (last, sent.push(a)),
            None => (last, sent),
        }
    }
}

fn is_ctrl_key(k: Key) -> (b: bool)
    ensures b == is_ctrl(k),
{
    match k {
        Key::ControlLeft | Key::ControlRight => true,
        _ => false,
    }
}

fn is_alt_key(k: Key) -> (b: bool)
    ensures b == is_alt(k),
{
    match k {
        Key::Alt | Key::AltGr => true,
        _ => false,
    }
}

fn is_shift_key(k: Key) -> (b: bool)
    ensures b == is_shift(k),
{
    match k {
        Key::ShiftLeft | Key::ShiftRight => true,
        _ => false,
    }
}

impl HotkeyTracker {
    /// A listener for the configured hotkey, with no key down.
    pub fn new(config: &HotkeyConfig) -> (t: Self)
        ensures
            t.target == key_named(uppercase(config.key@)),
            t.need_ctrl == config.ctrl,
            t.need_alt == config.alt,
            t.need_shift == config.shift,
            !t.ctrl_down && !t.alt_down && !t.shift_down && !t.active,
    {
        HotkeyTracker {
            target: key_from_str(config.key.as_str()),
            need_ctrl: config.ctrl,
            need_alt: config.alt,
            need_shift: config.shift,
            ctrl_down: false,
            alt_down: false,
            shift_down: false,
            active: false,
        }
    }

    /// Takes one keyboard event; returns the request to send, if any.
    pub fn on_event(&mut self, ev: KeyEvent) -> (r: Option<AppEvent>)
        ensures (*final(self), r) == step(*old(self), ev),
    {
        match ev {
            KeyEvent::Press(k) => {
                if is_ctrl_key(k) {
                    self.ctrl_down = true;
                    None
                } else if is_alt_key(k) {
                    self.alt_down = true;
                    None
                } else if is_shift_key(k) {
                    self.shift_down = true;
                    None
                } else if k == self.target {
                    let ok = (!self.need_ctrl || self.ctrl_down) && (!self.need_alt || self.alt_down)
                        && (!self.need_shift || self.shift_down);
                    if ok && !self.active {
                        self.active = true;
                        Some(AppEvent::RecordStart)
                    } else {
                        None
                    }
                } else {
                    None
                }
            },
            KeyEvent::Release(k) => {
                if is_ctrl_key(k) {
                    self.ctrl_down = false;
                    None
                } else if is_alt_key(k) {
                    self.alt_down = false;
                    None
                } else if is_shift_key(k) {
                    self.shift_down = false;
                    None
                } else if k == self.target && self.active {
                    self.active = false;
                    Some(AppEvent::RecordStop)
                } else {
                    None
                }
            },
        }
    }
}

/// Whatever the keyboard does, the listener's requests alternate: a start,
/// then a stop, then a start, and so on; it is recording exactly when the
/// last request was a start.
pub proof fn lemma_requests_alternate(t: HotkeyTracker, evs: Seq<KeyEvent>)
    requires !t.active,
    ensures
        forall|i: int| 0 <= i < run(t, evs).1.len() ==>
            #[trigger] run(t, evs).1[i] == if i % 2 == 0 { AppEvent::RecordStart } else { AppEvent::RecordStop },
        run(t, evs).0.active == (run(t, evs).1.len() % 2 == 1),
        run(t, evs).0.target == t.target,
    decreases evs.len(),
{
    if evs.len() > 0 {
        lemma_requests_alternate(t, evs.drop_last());
    }
}

/// The number of a function key (`F1` is 1, ..., `F12` is 12), 0 for
/// every other key.
pub open spec fn function_key_number(k: Key) -> nat {
    match k {
        Key::F1 => 1, Key::F2 => 2, Key::F3 => 3, Key::F4 => 4, Key::F5 => 5, Key::F6 => 6,
        Key::F7 => 7, Key::F8 => 8, Key::F9 => 9, Key::F10 => 10, Key::F11 => 11, Key::F12 => 12,
        _ => 0,
    }
}

/// The name `F` followed by a number from 1 to 12 names the function key
/// of that number: `F8` is the eighth function key, and so on.
pub proof fn lemma_function_key_names(n: nat)
    requires 1 <= n <= 12,
    ensures function_key_number(key_named("F"@ + decimal(n))) == n,
{
    reveal_strlit("F");
    reveal_strlit("F1");
    reveal_strlit("F2");
    reveal_strlit("F3");
    reveal_strlit("F4");
    reveal_strlit("F5");
    reveal_strlit("F6");
    reveal_strlit("F7");
    reveal_strlit("F8");
    reveal_strlit("F9");
    reveal_strlit("F10");
    reveal_strlit("F11");
    reveal_strlit("F12");
    if n == 1 {
        assert(decimal(1) == seq!['1']);
        assert("F"@ + decimal(1) =~= "F1"@);
    } else if n == 2 {
        assert(decimal(2) == seq!['2']);
        assert("F"@ + decimal(2) =~= "F2"@);
        assert("F2"@[1] != "F1"@[1]);
    } else if n == 3 {
        assert(decimal(3) == seq!['3']);
        assert("F"@ + decimal(3) =~= "F3"@);
        assert("F3"@[1] != "F1"@[1]);
        assert("F3"@[1] != "F2"@[1]);
    } else if n == 4 {
        assert(decimal(4) == seq!['4']);
        assert("F"@ + decimal(4) =~= "F4"@);
        assert("F4"@[1] != "F1"@[1]);
        assert("F4"@[1] != "F2"@[1]);
        assert("F4"@[1] != "F3"@[1]);
    } else if n == 5 {
        assert(decimal(5) == seq!['5']);
        assert("F"@ + decimal(5) =~= "F5"@);
        assert("F5"@[1] != "F1"@[1]);
        assert("F5"@[1] != "F2"@[1]);
        assert("F5"@[1] != "F3"@[1]);
        assert("F5"@[1] != "F4"@[1]);
    } else if n == 6 {
        assert(decimal(6) == seq!['6']);
        assert("F"@ + decimal(6) =~= "F6"@);
        assert("F6"@[1] != "F1"@[1]);
        assert("F6"@[1] != "F2"@[1]);
        assert("F6"@[1] != "F3"@[1]);
        assert("F6"@[1] != "F4"@[1]);
        assert("F6"@[1] != "F5"@[1]);
    } else if n == 7 {
        assert(decimal(7) == seq!['7']);
        assert("F"@ + decimal(7) =~= "F7"@);
        assert("F7"@[1] != "F1"@[1]);
        assert("F7"@[1] != "F2"@[1]);
        assert("F7"@[1] != "F3"@[1]);
        assert("F7"@[1] != "F4"@[1]);
        assert("F7"@[1] != "F5"@[1]);
        assert("F7"@[1] != "F6"@[1]);
    } else if n == 8 {
        assert(decimal(8) == seq!['8']);
        assert("F"@ + decimal(8) =~= "F8"@);
        assert("F8"@[1] != "F1"@[1]);
        assert("F8"@[1] != "F2"@[1]);
        assert("F8"@[1] != "F3"@[1]);
        assert("F8"@[1] != "F4"@[1]);
        assert("F8"@[1] != "F5"@[1]);
        assert("F8"@[1] != "F6"@[1]);
        assert("F8"@[1] != "F7"@[1]);
    } else if n == 9 {
        assert(decimal(9) == seq!['9']);
        assert("F"@ + decimal(9) =~= "F9"@);
        assert("F9"@[1] != "F1"@[1]);
        assert("F9"@[1] != "F2"@[1]);
        assert("F9"@[1] != "F3"@[1]);
        assert("F9"@[1] != "F4"@[1]);
        assert("F9"@[1] != "F5"@[1]);
        assert("F9"@[1] != "F6"@[1]);
        assert("F9"@[1] != "F7"@[1]);
        assert("F9"@[1] != "F8"@[1]);
    } else if n == 10 {
        assert(decimal(10) == seq!['1', '0']) by { assert(decimal(1) == seq!['1']); }
        assert("F"@ + decimal(10) =~= "F10"@);
        assert("F10"@.len() != "F1"@.len());
        assert("F10"@.len() != "F2"@.len());
        assert("F10"@.len() != "F3"@.len());
        assert("F10"@.len() != "F4"@.len());
        assert("F10"@.len() != "F5"@.len());
        assert("F10"@.len() != "F6"@.len());
        assert("F10"@.len() != "F7"@.len());
        assert("F10"@.len() != "F8"@.len());
        assert("F10"@.len() != "F9"@.len());
    } else if n == 11 {
        assert(decimal(11) == seq!['1', '1']) by { assert(decimal(1) == seq!['1']); }
        assert("F"@ + decimal(11) =~= "F11"@);
        assert("F11"@.len() != "F1"@.len());
        assert("F11"@.len() != "F2"@.len());
        assert("F11"@.len() != "F3"@.len());
        assert("F11"@.len() != "F4"@.len());
        assert("F11"@.len() != "F5"@.len());
        assert("F11"@.len() != "F6"@.len());
        assert("F11"@.len() != "F7"@.len());
        assert("F11"@.len() != "F8"@.len());
        assert("F11"@.len() != "F9"@.len());
        assert("F11"@[2] != "F10"@[2]);
    } else if n == 12 {
        assert(decimal(12) == seq!['1', '2']) by { assert(decimal(1) == seq!['1']); }
        assert("F"@ + decimal(12) =~= "F12"@);
        assert("F12"@.len() != "F1"@.len());
        assert("F12"@.len() != "F2"@.len());
        assert("F12"@.len() != "F3"@.len());
        assert("F12"@.len() != "F4"@.len());
        assert("F12"@.len() != "F5"@.len());
        assert("F12"@.len() != "F6"@.len());
        assert("F12"@.len() != "F7"@.len());
        assert("F12"@.len() != "F8"@.len());
        assert("F12"@.len() != "F9"@.len());
        assert("F12"@[2] != "F10"@[2]);
        assert("F12"@[2] != "F11"@[2]);
    }
}

/// The keys that can be named as the hotkey: every key but the modifiers
/// and the unnamed ones.
pub open spec fn nameable(k: Key) -> bool {
    !(k is Other) && !(k is ControlLeft) && !(k is ControlRight) && !(k is Alt) && !(k is AltGr)
        && !(k is ShiftLeft) && !(k is ShiftRight)
}

/// The name the settings write for a key that can be the hotkey (in capitals,
/// the function keys as `F1` to `F12`).
pub open spec fn key_label(k: Key) -> Seq<char> {
    match k {
        Key::F10 => "F10"@,
        Key::Num0 => "NUM0"@,
        Key::F11 => "F11"@,
        Key::F1 => "F1"@,
        Key::Num1 => "NUM1"@,
        Key::F12 => "F12"@,
        Key::F2 => "F2"@,
        Key::Num2 => "NUM2"@,
        Key::F3 => "F3"@,
        Key::Num3 => "NUM3"@,
        Key::F4 => "F4"@,
        Key::Num4 => "NUM4"@,
        Key::F5 => "F5"@,
        Key::Num5 => "NUM5"@,
        Key::F6 => "F6"@,
        Key::Num6 => "NUM6"@,
        Key::F7 => "F7"@,
        Key::Num7 => "NUM7"@,
        Key::F8 => "F8"@,
        Key::Num8 => "NUM8"@,
        Key::F9 => "F9"@,
        Key::Num9 => "NUM9"@,
        Key::Tab => "TAB"@,
        Key::End => "END"@,
        Key::Space => "SPACE"@,
        Key::Backspace => "BACKSPACE"@,
        Key::KpDivide => "KPDIVIDE"@,
        Key::Home => "HOME"@,
        Key::Escape => "ESCAPE"@,
        Key::Pause => "PAUSE"@,
        Key::Delete => "DELETE"@,
        Key::BackQuote => "BACKQUOTE"@,
        Key::ScrollLock => "SCROLLLOCK"@,
        Key::NumLock => "NUMLOCK"@,
        Key::CapsLock => "CAPSLOCK"@,
        Key::Return => "ENTER"@,
        Key::KpReturn => "KPRETURN"@,
        Key::PageDown => "PAGEDOWN"@,
        Key::PageUp => "PAGEUP"@,
        Key::KpPlus => "KPPLUS"@,
        Key::KpMinus => "KPMINUS"@,
        Key::Insert => "INSERT"@,
        Key::KpMultiply => "KPMULTIPLY"@,
        _ => seq![],
    }
}

/// Every key that can be the hotkey is found again from its name: the name
/// `F8` gives `F8`, `SPACE` gives `Space`, and so on for each listed key.
pub proof fn lemma_key_names_round_trip(k: Key)
    requires nameable(k),
    ensures key_named(key_label(k)) == k,
{
    reveal_strlit("F10");
    assert("F10"@ =~= seq!['F', '1', '0']);
    reveal_strlit("NUM0");
    assert("NUM0"@ =~= seq!['N', 'U', 'M', '0']);
    reveal_strlit("F11");
    assert("F11"@ =~= seq!['F', '1', '1']);
    reveal_strlit("F1");
    assert("F1"@ =~= seq!['F', '1']);
    reveal_strlit("NUM1");
    assert("NUM1"@ =~= seq!['N', 'U', 'M', '1']);
    reveal_strlit("F12");
    assert("F12"@ =~= seq!['F', '1', '2']);
    reveal_strlit("F2");
    assert("F2"@ =~= seq!['F', '2']);
    reveal_strlit("NUM2");
    assert("NUM2"@ =~= seq!['N', 'U', 'M', '2']);
    reveal_strlit("F3");
    assert("F3"@ =~= seq!['F', '3']);
    reveal_strlit("NUM3");
    assert("NUM3"@ =~= seq!['N', 'U', 'M', '3']);
    reveal_strlit("F4");
    assert("F4"@ =~= seq!['F', '4']);
    reveal_strlit("NUM4");
    assert("NUM4"@ =~= seq!['N', 'U', 'M', '4']);
    reveal_strlit("F5");
    assert("F5"@ =~= seq!['F', '5']);
    reveal_strlit("NUM5");
    assert("NUM5"@ =~= seq!['N', 'U', 'M', '5']);
    reveal_strlit("F6");
    assert("F6"@ =~= seq!['F', '6']);
    reveal_strlit("NUM6");
    assert("NUM6"@ =~= seq!['N', 'U', 'M', '6']);
    reveal_strlit("F7");
    assert("F7"@ =~= seq!['F', '7']);
    reveal_strlit("NUM7");
    assert("NUM7"@ =~= seq!['N', 'U', 'M', '7']);
    reveal_strlit("F8");
    assert("F8"@ =~= seq!['F', '8']);
    reveal_strlit("NUM8");
    assert("NUM8"@ =~= seq!['N', 'U', 'M', '8']);
    reveal_strlit("F9");
    assert("F9"@ =~= seq!['F', '9']);
    reveal_strlit("NUM9");
    assert("NUM9"@ =~= seq!['N', 'U', 'M', '9']);
    reveal_strlit("TAB");
    assert("TAB"@ =~= seq!['T', 'A', 'B']);
    reveal_strlit("ESC");
    assert("ESC"@ =~= seq!['E', 'S', 'C']);
    reveal_strlit("END");
    assert("END"@ =~= seq!['E', 'N', 'D']);
    reveal_strlit("SPACE");
    assert("SPACE"@ =~= seq!['S', 'P', 'A', 'C', 'E']);
    reveal_strlit("BACKSPACE");
    assert("BACKSPACE"@ =~= seq!['B', 'A', 'C', 'K', 'S', 'P', 'A', 'C', 'E']);
    reveal_strlit("NUMPADDIVIDE");
    assert("NUMPADDIVIDE"@ =~= seq!['N', 'U', 'M', 'P', 'A', 'D', 'D', 'I', 'V', 'I', 'D', 'E']);
    reveal_strlit("KPDIVIDE");
    assert("KPDIVIDE"@ =~= seq!['K', 'P', 'D', 'I', 'V', 'I', 'D', 'E']);
    reveal_strlit("HOME");
    assert("HOME"@ =~= seq!['H', 'O', 'M', 'E']);
    reveal_strlit("ESCAPE");
    assert("ESCAPE"@ =~= seq!['E', 'S', 'C', 'A', 'P', 'E']);
    reveal_strlit("PAUSE");
    assert("PAUSE"@ =~= seq!['P', 'A', 'U', 'S', 'E']);
    reveal_strlit("DELETE");
    assert("DELETE"@ =~= seq!['D', 'E', 'L', 'E', 'T', 'E']);
    reveal_strlit("BACKQUOTE");
    assert("BACKQUOTE"@ =~= seq!['B', 'A', 'C', 'K', 'Q', 'U', 'O', 'T', 'E']);
    reveal_strlit("BACKTICK");
    assert("BACKTICK"@ =~= seq!['B', 'A', 'C', 'K', 'T', 'I', 'C', 'K']);
    reveal_strlit("SCROLLLOCK");
    assert("SCROLLLOCK"@ =~= seq!['S', 'C', 'R', 'O', 'L', 'L', 'L', 'O', 'C', 'K']);
    reveal_strlit("NUMLOCK");
    assert("NUMLOCK"@ =~= seq!['N', 'U', 'M', 'L', 'O', 'C', 'K']);
    reveal_strlit("CAPSLOCK");
    assert("CAPSLOCK"@ =~= seq!['C', 'A', 'P', 'S', 'L', 'O', 'C', 'K']);
    reveal_strlit("DEL");
    assert("DEL"@ =~= seq!['D', 'E', 'L']);
    reveal_strlit("RETURN");
    assert("RETURN"@ =~= seq!['R', 'E', 'T', 'U', 'R', 'N']);
    reveal_strlit("KPRETURN");
    assert("KPRETURN"@ =~= seq!['K', 'P', 'R', 'E', 'T', 'U', 'R', 'N']);
    reveal_strlit("PAGEDOWN");
    assert("PAGEDOWN"@ =~= seq!['P', 'A', 'G', 'E', 'D', 'O', 'W', 'N']);
    reveal_strlit("PAGEUP");
    assert("PAGEUP"@ =~= seq!['P', 'A', 'G', 'E', 'U', 'P']);
    reveal_strlit("ENTER");
    assert("ENTER"@ =~= seq!['E', 'N', 'T', 'E', 'R']);
    reveal_strlit("NUMPADENTER");
    assert("NUMPADENTER"@ =~= seq!['N', 'U', 'M', 'P', 'A', 'D', 'E', 'N', 'T', 'E', 'R']);
    reveal_strlit("NUMPADPLUS");
    assert("NUMPADPLUS"@ =~= seq!['N', 'U', 'M', 'P', 'A', 'D', 'P', 'L', 'U', 'S']);
    reveal_strlit("KPPLUS");
    assert("KPPLUS"@ =~= seq!['K', 'P', 'P', 'L', 'U', 'S']);
    reveal_strlit("NUMPADMINUS");
    assert("NUMPADMINUS"@ =~= seq!['N', 'U', 'M', 'P', 'A', 'D', 'M', 'I', 'N', 'U', 'S']);
    reveal_strlit("KPMINUS");
    assert("KPMINUS"@ =~= seq!['K', 'P', 'M', 'I', 'N', 'U', 'S']);
    reveal_strlit("INSERT");
    assert("INSERT"@ =~= seq!['I', 'N', 'S', 'E', 'R', 'T']);
    reveal_strlit("NUMPADMULTIPLY");
    assert("NUMPADMULTIPLY"@ =~= seq!['N', 'U', 'M', 'P', 'A', 'D', 'M', 'U', 'L', 'T', 'I', 'P', 'L', 'Y']);
    reveal_strlit("KPMULTIPLY");
    assert("KPMULTIPLY"@ =~= seq!['K', 'P', 'M', 'U', 'L', 'T', 'I', 'P', 'L', 'Y']);
    match k {
        Key::F10 => {},
        Key::Num0 => {},
        Key::F11 => {},
        Key::F1 => {},
        Key::Num1 => {},
        Key::F12 => {},
        Key::F2 => {},
        Key::Num2 => {},
        Key::F3 => {},
        Key::Num3 => {},
        Key::F4 => {},
        Key::Num4 => {},
        Key::F5 => {},
        Key::Num5 => {},
        Key::F6 => {},
        Key::Num6 => {},
        Key::F7 => {},
        Key::Num7 => {},
        Key::F8 => {},
        Key::Num8 => {},
        Key::F9 => {},
        Key::Num9 => {},
        Key::Tab => {},
        Key::End => {},
        Key::Space => {},
        Key::Backspace => {},
        Key::KpDivide => {},
        Key::Home => {},
        Key::Escape => {},
        Key::Pause => {},
        Key::Delete => {},
        Key::BackQuote => {},
        Key::ScrollLock => {},
        Key::NumLock => {},
        Key::CapsLock => {},
        Key::Return => {},
        Key::KpReturn => {},
        Key::PageDown => {},
        Key::PageUp => {},
        Key::KpPlus => {},
        Key::KpMinus => {},
        Key::Insert => {},
        Key::KpMultiply => {},
        _ => {},
    }
}

/// Key names are read in any letter case: an ASCII name whose capitals are
/// the label of a key (such as `f8` or `Space`) names that key, and
/// `key_from_str` returns it.
pub proof fn lemma_key_name_any_case(s: Seq<char>, k: Key)
    requires
        nameable(k),
        s.map_values(|c: char| crate::text::ascii_upper(c)) == key_label(k),
    ensures
        key_named(s.map_values(|c: char| crate::text::ascii_upper(c))) == k,
{
    lemma_key_names_round_trip(k);
}

} // verus!
