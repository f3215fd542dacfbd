use archeio::error::Error;
use archeio::library::{Broadcast, Library};
use archeio::time::Timestamp;

fn ts(secs: i64) -> Timestamp {
    Timestamp::new(secs, 0).unwrap()
}

fn row(id: &str, secs: i64) -> Broadcast {
    Broadcast {
        id: id.to_string(),
        started_at: ts(secs),
        ended_at: None,
        youtube_video_id: Some(format!("vid-{id}")),
        title: Some(format!("title {id}")),
        privacy: None,
    }
}

fn ids(rows: &[Broadcast]) -> Vec<String> {
    rows.iter().map(|r| r.id.clone()).collect()
}

#[test]
fn list_is_newest_first_and_stable() {
    let lib = Library::with_items(vec![
        row("a", 100),
        row("b", 300),
        row("c", 200),
        row("d", 300),
        row("e", 100),
    ]);
    assert_eq!(ids(&lib.list()), vec!["b", "d", "c", "a", "e"]);
    // The log order itself is untouched.
    assert_eq!(ids(lib.items()), vec!["a", "b", "c", "d", "e"]);
}

#[test]
fn list_of_empty_library() {
    let lib = Library::with_items(vec![]);
    assert!(lib.list().is_empty());
}

#[test]
fn add_at_start_creates_private_open_row() {
    let mut lib = Library::with_items(vec![row("x", 5)]);
    let r = lib.add_at_start(ts(1_715_178_720), "vid1", "My stream");
    assert_eq!(r.id, "2024-05-08T14:32:00+00:00");
    assert_eq!(r.started_at, ts(1_715_178_720));
    assert_eq!(r.ended_at, None);
    assert_eq!(r.youtube_video_id.as_deref(), Some("vid1"));
    assert_eq!(r.title.as_deref(), Some("My stream"));
    assert_eq!(r.privacy.as_deref(), Some("private"));
    assert_eq!(lib.items().len(), 2);
    assert_eq!(lib.items()[1].id, r.id);
}

#[test]
fn add_then_end_marks_the_new_row() {
    let mut lib = Library::with_items(vec![]);
    let r = lib.add_at_start(ts(0), "v", "t");
    let ended = lib.set_ended(&r.id, ts(60)).unwrap();
    assert_eq!(ended.ended_at, Some(ts(60)));
    assert_eq!(lib.items()[0].ended_at, Some(ts(60)));
}

#[test]
fn set_ended_changes_only_the_first_match() {
    let mut lib = Library::with_items(vec![row("a", 1), row("b", 2), row("b", 3)]);
    let r = lib.set_ended("b", ts(10)).unwrap();
    assert_eq!(r.started_at, ts(2));
    assert_eq!(lib.items()[0].ended_at, None);
    assert_eq!(lib.items()[1].ended_at, Some(ts(10)));
    assert_eq!(lib.items()[2].ended_at, None);
}

#[test]
fn set_privacy_and_title() {
    let mut lib = Library::with_items(vec![row("a", 1), row("b", 2)]);
    let p = lib.set_privacy("a", "public").unwrap();
    assert_eq!(p.privacy.as_deref(), Some("public"));
    let t = lib.set_title("b", "Renamed").unwrap();
    assert_eq!(t.title.as_deref(), Some("Renamed"));
    assert_eq!(lib.items()[0].privacy.as_deref(), Some("public"));
    assert_eq!(lib.items()[1].title.as_deref(), Some("Renamed"));
    assert_eq!(lib.items()[0].title.as_deref(), Some("title a"));
}

#[test]
fn unknown_id_is_refused_and_changes_nothing() {
    let mut lib = Library::with_items(vec![row("a", 1)]);
    let want = Error::Other("no broadcast with that id".to_string());
    assert_eq!(lib.set_ended("zz", ts(3)).unwrap_err(), want);
    assert_eq!(lib.set_privacy("zz", "public").unwrap_err(), want);
    assert_eq!(lib.set_title("zz", "x").unwrap_err(), want);
    assert_eq!(lib.items()[0].ended_at, None);
    assert_eq!(lib.items()[0].title.as_deref(), Some("title a"));
}

#[test]
fn remove_drops_every_row_with_the_id() {
    let mut lib = Library::with_items(vec![row("a", 1), row("b", 2), row("a", 3), row("c", 4)]);
    lib.remove("a");
    assert_eq!(ids(lib.items()), vec!["b", "c"]);
    lib.remove("nope");
    assert_eq!(ids(lib.items()), vec!["b", "c"]);
}

#[test]
fn linked_video_id_found_and_missing() {
    let mut no_video = row("n", 5);
    no_video.youtube_video_id = None;
    let lib = Library::with_items(vec![row("a", 1), no_video]);
    assert_eq!(lib.linked_video_id("a").unwrap(), "vid-a");
    let want = Error::Other("broadcast has no linked YouTube video".to_string());
    assert_eq!(lib.linked_video_id("n").unwrap_err(), want);
    assert_eq!(lib.linked_video_id("missing").unwrap_err(), want);
}

#[test]
fn unfinished_rows_for_recovery() {
    let mut done = row("done", 1);
    done.ended_at = Some(ts(2));
    let mut local = row("local", 3);
    local.youtube_video_id = None;
    let lib = Library::with_items(vec![row("old", 0), done, local, row("new", 9)]);
    assert_eq!(ids(&lib.unfinished()), vec!["new", "old"]);
}

#[test]
fn orphan_is_ended_only_when_confirmed() {
    let mut lib = Library::with_items(vec![row("a", 10), row("b", 20)]);
    assert!(!lib.settle_orphan("a", false, ts(50)));
    assert!(lib.items().iter().all(|r| r.ended_at.is_none()));
    assert!(!lib.settle_orphan("zz", true, ts(50)));
    assert!(lib.settle_orphan("a", true, ts(50)));
    assert_eq!(lib.items()[0].ended_at, Some(ts(50)));
    assert_eq!(lib.items()[1].ended_at, None);
}
