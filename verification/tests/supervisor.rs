use archeio::supervisor::cleanup_after_failed_spawn;
use archeio::error::Error;
use archeio::supervisor::{cleanup_plan, custom_title, generated_title, ingest_url, LiveState, State};
use archeio::time::Timestamp;

fn ts(secs: i64, nanos: u32) -> Timestamp {
    Timestamp::new(secs, nanos).unwrap()
}

#[test]
fn new_state_is_idle() {
    let s: State<u32> = State::new();
    assert!(!s.is_running());
    assert!(!s.hotkey_active());
    assert_eq!(s.snapshot(), LiveState { is_running: false, started_at: None });
}

#[test]
fn start_then_stop_round_trip() {
    let mut s: State<&str> = State::new();
    assert!(s.check_can_start().is_ok());
    let live = s.install(ts(100, 0), "monitor");
    assert_eq!(live, LiveState { is_running: true, started_at: Some(ts(100, 0)) });
    assert_eq!(s.snapshot(), live);
    assert_eq!(s.check_can_start(), Err(Error::AlreadyBroadcasting));
    assert_eq!(s.begin_stop(), Ok(Some("monitor")));
    // Still running until the watcher clears the slot.
    assert!(s.is_running());
    assert_eq!(s.snapshot(), live);
    assert_eq!(s.check_can_start(), Err(Error::AlreadyBroadcasting));
    assert_eq!(s.begin_stop(), Ok(None));
    s.clear();
    assert!(!s.is_running());
    assert_eq!(s.begin_stop(), Err(Error::NotBroadcasting));
    assert!(s.check_can_start().is_ok());
}

#[test]
fn monitor_clear_and_hotkey_flag() {
    let mut s: State<()> = State::new();
    s.set_hotkey_active(true);
    s.install(ts(1, 0), ());
    s.clear();
    assert_eq!(s.snapshot(), LiveState { is_running: false, started_at: None });
    assert!(s.hotkey_active());
}

#[test]
fn titles() {
    assert_eq!(custom_title(Some("  Speedrun  ")), Some("Speedrun".to_string()));
    assert_eq!(custom_title(Some(" \t\u{3000} ")), None);
    assert_eq!(custom_title(None), None);
    assert_eq!(generated_title(ts(1_715_178_720, 0)), "Archeio · May 8, 14:32");
    assert_eq!(generated_title(ts(1_704_067_199, 999_000_000)), "Archeio · Dec 31, 23:59");
}

#[test]
fn ingest_address() {
    assert_eq!(
        ingest_url("rtmp://a.rtmp.youtube.com/live2", "abcd-1234"),
        "rtmp://a.rtmp.youtube.com/live2/abcd-1234"
    );
}

#[test]
fn short_broadcast_is_discarded() {
    let c = cleanup_plan(ts(100, 0), ts(104, 999_999_999), Some("b1".into()), Some("r1".into()));
    assert_eq!(c.delete_broadcast.as_deref(), Some("b1"));
    assert_eq!(c.remove_row.as_deref(), Some("r1"));
    assert_eq!(c.end_row, None);
}

#[test]
fn long_broadcast_is_finalised() {
    let c = cleanup_plan(ts(100, 0), ts(105, 0), Some("b1".into()), Some("r1".into()));
    assert_eq!(c.delete_broadcast, None);
    assert_eq!(c.remove_row, None);
    assert_eq!(c.end_row.as_deref(), Some("r1"));
}

#[test]
fn failed_spawn_deletes_only_the_broadcast() {
    let c = cleanup_after_failed_spawn(Some("b1".into()));
    assert_eq!(c.delete_broadcast, Some("b1".to_string()));
    assert_eq!(c.remove_row, None);
    assert_eq!(c.end_row, None);
    assert_eq!(cleanup_after_failed_spawn(None).delete_broadcast, None);
}
