//! The decisions of a per-application volume knob: its settings, the
//! keyboard hook's routing, the audio session bookkeeping, the status texts
//! and the window's geometry, kept apart from the Win32 calls that act on them.

pub mod text;
pub mod win;
pub mod config;
pub mod path;
pub mod media;
pub mod hook;
pub mod names;
pub mod audio;
pub mod ui;
pub mod autostart;
pub mod app;
