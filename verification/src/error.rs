//! The one error type of the broadcaster, and the text shown for each kind.
use vstd::prelude::*;

use crate::text::{decimal, decimal_string};

verus! {

broadcast use vstd::string::group_string_axioms;

/// Everything that can go wrong in the broadcaster. The `Io`, `Keyring` and `Tauri`
/// kinds carry the text of the underlying failure.
#[derive(Debug, Clone, PartialEq, Eq)]
pub enum Error {
    AlreadyBroadcasting,
    Cooldown(u64),
    NotBroadcasting,
    FfmpegNotFound,
    FfmpegFailed(String),
    OAuthClientMissing,
    OAuthNotConnected,
    Io(String),
    Keyring(String),
    Tauri(String),
    Other(String),
}

/// Whether `e` is `Error::Other` carrying the text `m`.
pub open spec fn is_other(e: Error, m: Seq<char>) -> bool {
    e matches Error::Other(s) && s@ == m
}

/// The text shown to the user for `e`.
pub open spec fn error_text(e: Error) -> Seq<char> {
    match e {
        Error::AlreadyBroadcasting => "a broadcast is already running"@,
        Error::Cooldown(secs) => "YouTube cooldown - wait "@ + decimal(secs as nat)
            + "s before starting again"@,
        Error::NotBroadcasting => "no broadcast running"@,
        Error::FfmpegNotFound =>
            "ffmpeg not found - install it and add to PATH, or place ffmpeg.exe next to Archeio.exe"@,
        Error::FfmpegFailed(m) => "ffmpeg failed to start: "@ + m@,
        Error::OAuthClientMissing =>
            "oauth_client.json not found at %LOCALAPPDATA%\\Archeio\\ - see SETUP.md to create one"@,
        Error::OAuthNotConnected =>
            "not connected to YouTube - click Connect in the Account section"@,
        Error::Io(m) => "io error: "@ + m@,
        Error::Keyring(m) => "keyring error: "@ + m@,
        Error::Tauri(m) => "tauri error: "@ + m@,
        Error::Other(m) => m@,
    }
}

/// `Error::Other` carrying the text `m`.
pub fn other(m: &str) -> (e: Error)
    ensures
        is_other(e, m@),
{
    Error::Other(m.to_string())
}

impl Error {
    /// The text shown to the user for this error.
    pub fn message(&self) -> (r: String)
        ensures
            r@ == error_text(*self),
    {
        match self {
            Error::AlreadyBroadcasting => "a broadcast is already running".to_string(),
            Error::Cooldown(secs) => {
                let mut r = "YouTube cooldown - wait ".to_string();
                let d = decimal_string(*secs);
                r.append(d.as_str());
                r.append("s before starting again");
                r
            },
            Error::NotBroadcasting => "no broadcast running".to_string(),
            Error::FfmpegNotFound =>
                "ffmpeg not found - install it and add to PATH, or place ffmpeg.exe next to Archeio.exe".to_string(),
            Error::FfmpegFailed(m) => {
                let mut r = "ffmpeg failed to start: ".to_string();
                r.append(m.as_str());
                r
            },
            Error::OAuthClientMissing =>
                "oauth_client.json not found at %LOCALAPPDATA%\\Archeio\\ - see SETUP.md to create one".to_string(),
            Error::OAuthNotConnected =>
                "not connected to YouTube - click Connect in the Account section".to_string(),
            Error::Io(m) => {
                let mut r = "io error: ".to_string();
                r.append(m.as_str());
                r
            },
            Error::Keyring(m) => {
                let mut r = "keyring error: ".to_string();
                r.append(m.as_str());
                r
            },
            Error::Tauri(m) => {
                let mut r = "tauri error: ".to_string();
                r.append(m.as_str());
                r
            },
            Error::Other(m) => m.clone(),
        }
    }
}

} // verus!
