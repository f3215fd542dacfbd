//! Archeio's broadcasting logic: the library of past broadcasts, the live-state
//! supervisor, the OAuth loopback flow, the YouTube request plumbing and the
//! ffmpeg command line, each with its contract.
pub mod time;
pub mod text;
pub mod error;
pub mod library;
pub mod supervisor;
pub mod url;
pub mod http;
pub mod oauth;
pub mod ffmpeg;
pub mod youtube;
pub mod hotkey;
pub mod tray;
