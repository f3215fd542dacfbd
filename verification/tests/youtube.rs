use archeio::time::Timestamp;
use archeio::youtube::{broadcast_settings, stream_settings};
use archeio::error::Error;
use archeio::http::{http_response, is_success, request_failed, status_text};
use archeio::hotkey::{registration_failed, taskkill_args, HOTKEY};
use archeio::youtube::{
    api_failure, api_status, api_url, bind_url, broadcast_url, check_new_title, delete_succeeded,
    first_item, provisioned, rollback_steps, stream_url, transition_failure, transition_url,
    video_url, ApiStatus, Rollback,
};

#[test]
fn request_urls() {
    assert_eq!(api_url("/channels?mine=true&part=snippet&maxResults=1"), "https://www.googleapis.com/youtube/v3/channels?mine=true&part=snippet&maxResults=1");
    assert_eq!(transition_url("a b"), "https://www.googleapis.com/youtube/v3/liveBroadcasts/transition?broadcastStatus=complete&id=a%20b&part=id,status");
    assert_eq!(broadcast_url("B1"), "https://www.googleapis.com/youtube/v3/liveBroadcasts?id=B1");
    assert_eq!(stream_url("s/1"), "https://www.googleapis.com/youtube/v3/liveStreams?id=s%2F1");
    assert_eq!(bind_url("b&1", "s1"), "https://www.googleapis.com/youtube/v3/liveBroadcasts/bind?id=b%261&part=id,contentDetails&streamId=s1");
    assert_eq!(video_url("ü"), "https://www.googleapis.com/youtube/v3/videos?id=%C3%BC&part=snippet");
}

#[test]
fn status_codes() {
    assert_eq!(status_text(404), "404 Not Found");
    assert_eq!(status_text(401), "401 Unauthorized");
    assert!(is_success(200) && is_success(204) && is_success(299));
    assert!(!is_success(199) && !is_success(300) && !is_success(404));
}

#[test]
fn reading_api_answers() {
    assert_eq!(api_status(401), ApiStatus::Unauthorized);
    assert_eq!(api_status(403), ApiStatus::Failed);
    assert_eq!(api_status(200), ApiStatus::Decode);
    assert_eq!(api_failure(403, "quota"), Error::Other("YouTube API 403 Forbidden: quota".into()));
    assert_eq!(request_failed("liveBroadcasts.bind", 400, "bad"), Error::Other("liveBroadcasts.bind failed (400 Bad Request): bad".into()));
}

#[test]
fn benign_transition_failures() {
    assert_eq!(transition_failure(403, "{\"reason\":\"redundantTransition\"}"), Ok(()));
    assert_eq!(transition_failure(403, "invalidTransition"), Ok(()));
    assert_eq!(transition_failure(403, "x errorStreamInactive y"), Ok(()));
    assert_eq!(
        transition_failure(500, "oops"),
        Err(Error::Other("liveBroadcasts.transition failed (500 Internal Server Error): oops".into()))
    );
}

#[test]
fn deletions() {
    assert!(delete_succeeded(204));
    assert!(delete_succeeded(200));
    assert!(!delete_succeeded(404));
}

#[test]
fn provisioning_and_rollback() {
    let p = provisioned("T", "s1".into(), "rtmp://i".into(), "k".into(), "b1".into());
    assert_eq!((p.broadcast_id.as_str(), p.video_id.as_str()), ("b1", "b1"));
    assert_eq!((p.stream_id.as_str(), p.rtmp_ingest.as_str(), p.stream_key.as_str(), p.title.as_str()), ("s1", "rtmp://i", "k", "T"));
    assert_eq!(rollback_steps("s1", None), vec![Rollback::DeleteStream("s1".into())]);
    assert_eq!(
        rollback_steps("s1", Some("b1")),
        vec![Rollback::DeleteBroadcast("b1".into()), Rollback::DeleteStream("s1".into())]
    );
}

#[test]
fn first_items() {
    assert_eq!(first_item(vec!["Chan".to_string(), "x".to_string()], "no channel on this account"), Ok("Chan".to_string()));
    assert_eq!(first_item(Vec::<String>::new(), "no channel on this account"), Err(Error::Other("no channel on this account".into())));
}

#[test]
fn new_title_rules() {
    assert_eq!(check_new_title("Fine"), Ok(()));
    assert_eq!(check_new_title("  \t"), Err(Error::Other("title cannot be empty".into())));
    assert_eq!(check_new_title(&"é".repeat(100)), Ok(()));
    assert_eq!(check_new_title(&"é".repeat(101)), Err(Error::Other("title cannot exceed 100 characters".into())));
}

#[test]
fn loopback_http_reply() {
    assert_eq!(
        http_response(200, "text/html", "héllo"),
        "HTTP/1.1 200 OK\r\nContent-Type: text/html; charset=utf-8\r\nContent-Length: 6\r\nConnection: close\r\n\r\nhéllo"
    );
    assert!(http_response(404, "text/plain", "not found").starts_with("HTTP/1.1 404 Not Found\r\n"));
    assert!(http_response(400, "text/html", "x").starts_with("HTTP/1.1 400 Bad Request\r\n"));
    assert!(http_response(302, "text/html", "x").starts_with("HTTP/1.1 302 OK\r\n"));
}

#[test]
fn hotkey_and_taskkill() {
    assert_eq!(HOTKEY, "Alt+X");
    assert_eq!(taskkill_args("Archeio.exe", 4242), vec!["/F", "/IM", "Archeio.exe", "/FI", "PID ne 4242"]);
}

#[test]
fn new_stream_and_broadcast_settings() {
    let s = stream_settings("Evening run");
    assert_eq!(s.title, "Evening run");
    assert_eq!(s.frame_rate, "60fps");
    assert_eq!(s.ingestion_type, "rtmp");
    assert_eq!(s.resolution, "1080p");
    let b = broadcast_settings("Evening run", Timestamp::new(1_715_178_720, 0).unwrap());
    assert_eq!(b.title, "Evening run");
    assert_eq!(b.scheduled_start_time, "2024-05-08T14:32:00+00:00");
    assert_eq!(b.privacy_status, "private");
    assert!(!b.self_declared_made_for_kids);
    assert!(b.enable_auto_start);
    assert!(b.enable_auto_stop);
    assert!(!b.enable_monitor_stream);
    assert_eq!(b.latency_preference, "low");
}

#[test]
fn hotkey_registration_error_text() {
    assert_eq!(
        registration_failed("already registered"),
        Error::Other("register hotkey 'Alt+X': already registered".to_string())
    );
}

#[test]
fn new_broadcast_is_private_like_its_row() {
    let mut lib = archeio::library::Library::with_items(vec![]);
    let t = Timestamp::new(1_715_178_720, 0).unwrap();
    let row = lib.add_at_start(t, "vid", "T");
    let b = broadcast_settings("T", t);
    assert_eq!(row.privacy, Some(b.privacy_status));
}
