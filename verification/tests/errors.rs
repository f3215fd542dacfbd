use archeio::error::Error;

#[test]
fn every_error_has_its_text() {
    assert_eq!(Error::AlreadyBroadcasting.message(), "a broadcast is already running");
    assert_eq!(Error::Cooldown(42).message(), "YouTube cooldown - wait 42s before starting again");
    assert_eq!(Error::Cooldown(0).message(), "YouTube cooldown - wait 0s before starting again");
    assert_eq!(Error::NotBroadcasting.message(), "no broadcast running");
    assert_eq!(
        Error::FfmpegNotFound.message(),
        "ffmpeg not found - install it and add to PATH, or place ffmpeg.exe next to Archeio.exe"
    );
    assert_eq!(Error::FfmpegFailed("boom".into()).message(), "ffmpeg failed to start: boom");
    assert_eq!(
        Error::OAuthClientMissing.message(),
        "oauth_client.json not found at %LOCALAPPDATA%\\Archeio\\ - see SETUP.md to create one"
    );
    assert_eq!(
        Error::OAuthNotConnected.message(),
        "not connected to YouTube - click Connect in the Account section"
    );
    assert_eq!(Error::Io("disk full".into()).message(), "io error: disk full");
    assert_eq!(Error::Keyring("locked".into()).message(), "keyring error: locked");
    assert_eq!(Error::Tauri("no window".into()).message(), "tauri error: no window");
    assert_eq!(Error::Other("plain".into()).message(), "plain");
}

#[test]
fn cooldown_uses_decimal_digits() {
    assert_eq!(
        Error::Cooldown(u64::MAX).message(),
        format!("YouTube cooldown - wait {}s before starting again", u64::MAX)
    );
}
