//! Dictum: the decision logic of a local voice-dictation tool, verified.

pub mod binary32;
pub mod text;
pub mod transcript;
pub mod substitution;
pub mod typography;
pub mod config;
pub mod history;
pub mod pipeline;
pub mod hotkey;
pub mod live;
pub mod updater;
pub mod downloader;
pub mod notify;
pub mod inject;
pub mod reformulate;
pub mod api;
pub mod setup;
pub mod cli;
pub mod tray;

