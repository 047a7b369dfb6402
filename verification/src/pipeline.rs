//! The record → transcribe → type pipeline: what each event leads to.
use vstd::prelude::*;
use crate::config::Config;
use crate::history::{History, HistoryEntry, pushed};
use crate::substitution::substituted;
use crate::updater::UpdateInfo;

verus! {

/// What the hotkey listener, the tray and the local API send to the pipeline.
#[derive(Debug, Clone, Copy, PartialEq, Eq, Structural)]
pub enum AppEvent {
    RecordStart,
    RecordStop,
    ReloadConfig,
    TogglePause,
    Quit,
}


/// The state the pipeline shares with the tray and the local API.
pub struct Pipeline {
    pub recording: bool,
    pub transcribing: bool,
    pub paused: bool,
    /// Transcriptions typed since the start.
    pub session_count: u32,
}

/// What a press of the hotkey leads to.
#[derive(Debug, Clone, Copy, PartialEq, Eq, Structural)]
pub enum StartDecision {
    /// Dictation is paused: the key is ignored.
    Paused,
    /// A transcription is under way: the key is ignored.
    Busy,
    /// Recording starts.
    Record,
}

/// What a release of the hotkey leads to.
#[derive(Debug, Clone, Copy, PartialEq, Eq, Structural)]
pub enum StopDecision {
    /// Held for less than the minimum: the recording is dropped.
    TooShort,
    /// The recording is transcribed.
    Transcribe,
}

/// The fewest samples worth transcribing (0.1 s at 16 kHz).
pub const MIN_SAMPLES: usize = 1600;

/// What a press of the hotkey leads to in state `p`: nothing while paused
/// or while a transcription runs, else a recording.
pub open spec fn start_decision(p: Pipeline) -> StartDecision {
    if p.paused {
        StartDecision::Paused
    } else if p.transcribing {
        StartDecision::Busy
    } else {
        StartDecision::Record
    }
}

/// The state with dictation paused if it ran, resumed if it was paused.
pub open spec fn pause_toggled(p: Pipeline) -> Pipeline {
    Pipeline { paused: !p.paused, ..p }
}

impl Pipeline {
    pub fn new() -> (p: Self)
        ensures !p.recording && !p.transcribing && !p.paused && p.session_count == 0,
    {
        Pipeline { recording: false, transcribing: false, paused: false, session_count: 0 }
    }

    /// The hotkey went down.
    pub fn on_record_start(&self) -> (d: StartDecision)
        ensures d == start_decision(*self),
    {
        if self.paused {
            StartDecision::Paused
        } else if self.transcribing {
            StartDecision::Busy
        } else {
            StartDecision::Record
        }
    }

    /// Recording has started.
    pub fn recording_started(&mut self)
        ensures *final(self) == (Pipeline { recording: true, ..*old(self) }),
    {
        self.recording = true;
    }

    /// The hotkey went up after `elapsed_ms` milliseconds of recording.
    pub fn on_record_stop(&mut self, elapsed_ms: u64, min_record_ms: u64) -> (d: StopDecision)
        ensures
            *final(self) == (Pipeline { recording: false, ..*old(self) }),
            d == if elapsed_ms < min_record_ms { StopDecision::TooShort } else { StopDecision::Transcribe },
    {
        self.recording = false;
        if elapsed_ms < min_record_ms { StopDecision::TooShort } else { StopDecision::Transcribe }
    }

    /// Whether a recording of `samples` samples is worth transcribing.
    pub fn enough_samples(samples: usize) -> (b: bool)
        ensures b == (samples >= MIN_SAMPLES),
    {
        samples >= MIN_SAMPLES
    }

    /// A transcription starts or ends.
    pub fn set_transcribing(&mut self, on: bool)
        ensures *final(self) == (Pipeline { transcribing: on, ..*old(self) }),
    {
        self.transcribing = on;
    }

    /// Pause or resume dictation; returns whether it is now paused.
    pub fn toggle_pause(&mut self) -> (paused: bool)
        ensures
            *final(self) == pause_toggled(*old(self)),
            paused == final(self).paused,
    {
        self.paused = !self.paused;
        self.paused
    }

    /// A transcription came back: an empty one is dropped; otherwise the
    /// substitutions are applied, the count goes up, the text goes to the
    /// front of the history (kept to `config.max_history`, at least one), and
    /// it is returned to be typed. `timestamp` is when it is added.
    pub fn on_transcribed(&mut self, config: &Config, history: &mut History, text: &str, timestamp: u64)
        -> (r: Option<String>)
        requires old(self).session_count < u32::MAX,
        ensures
            match r {
                None => text@.len() == 0 && *final(self) == *old(self) && final(history)@ == old(history)@,
                Some(t) => {
                    &&& text@.len() > 0
                    &&& t@ == substituted(config.substitutions@, text@)
                    &&& *final(self) == (Pipeline { session_count: (old(self).session_count + 1) as u32, ..*old(self) })
                    &&& final(history)@.len() >= 1
                    &&& final(history)@[0].text@ == t@
                    &&& final(history)@ == pushed(old(history)@, final(history)@[0], config.max_history)
                    &&& final(history)@[0].timestamp == timestamp
                },
            },
    {
        if text.is_empty() {
            return None;
        }
        let t = config.apply_substitutions(text);
        self.session_count = self.session_count + 1;
        let e = HistoryEntry { text: t.clone(), timestamp };
        history.push_entry(e, config.max_history);
        proof { crate::history::lemma_push_newest_first(old(history)@, e, config.max_history); }
        Some(t)
    }
}

/// Pausing twice leaves the pipeline as it was.
pub proof fn lemma_pause_twice(p: Pipeline)
    ensures pause_toggled(pause_toggled(p)) == p,
{
}

/// While dictation is paused or a transcription runs, the hotkey never
/// starts a recording.
pub proof fn lemma_no_start_when_blocked(p: Pipeline)
    requires p.paused || p.transcribing,
    ensures start_decision(p) != StartDecision::Record,
{
}

/// Takes the update found by the background check, leaving none behind.
pub fn take_update(slot: &mut Option<UpdateInfo>) -> (r: Option<UpdateInfo>)
    ensures
        r == *old(slot),
        *final(slot) is None,
{
    let r = slot.take();
    r
}

} // verus!
