use archeio::supervisor::{after_poll, after_quit, ChildPoll, QuitFollowUp, QuitWait, WatchStep};
use archeio::text::{chars_of, contains, decimal_string, find_from, second_word_of, trim};
use archeio::tray::{click_shows_window, menu_action, MenuAction};

#[test]
fn trimming_unicode_white_space() {
    assert_eq!(trim("\u{a0}\u{2003} x y \r\n"), "x y");
    assert_eq!(trim(""), "");
    assert_eq!(trim("   "), "");
    assert_eq!(trim("\u{200b}x"), "\u{200b}x");
}

#[test]
fn decimal_digits() {
    assert_eq!(decimal_string(0), "0");
    assert_eq!(decimal_string(10), "10");
    assert_eq!(decimal_string(18_446_744_073_709_551_615), "18446744073709551615");
}

#[test]
fn substring_search() {
    let hay = chars_of("abcabd");
    assert!(contains(&hay, "abd"));
    assert!(contains(&hay, ""));
    assert!(!contains(&hay, "abe"));
    assert!(!contains(&chars_of("ab"), "abc"));
}

#[test]
fn finding_characters() {
    let cs = chars_of("a?b?c");
    assert_eq!(find_from(&cs, 0, '?'), Some(1));
    assert_eq!(find_from(&cs, 2, '?'), Some(3));
    assert_eq!(find_from(&cs, 4, '?'), None);
    assert_eq!(find_from(&cs, 5, '?'), None);
}

#[test]
fn request_line_words() {
    assert_eq!(second_word_of("GET /?code=1 HTTP/1.1\r\n"), Some("/?code=1".to_string()));
    assert_eq!(second_word_of("  GET\t\t/x  "), Some("/x".to_string()));
    assert_eq!(second_word_of("GET"), None);
    assert_eq!(second_word_of(""), None);
}

#[test]
fn watching_the_encoder() {
    assert_eq!(after_poll(ChildPoll::Exited, false), WatchStep::Finish { warn_user: true });
    assert_eq!(after_poll(ChildPoll::Exited, true), WatchStep::Finish { warn_user: false });
    assert_eq!(after_poll(ChildPoll::Running, false), WatchStep::KeepWatching);
    assert_eq!(after_poll(ChildPoll::PollFailed, false), WatchStep::Finish { warn_user: false });
    assert_eq!(after_quit(QuitWait::Exited), QuitFollowUp::Nothing);
    assert_eq!(after_quit(QuitWait::WaitFailed), QuitFollowUp::Kill);
    assert_eq!(after_quit(QuitWait::TimedOut), QuitFollowUp::KillAndReap);
}

#[test]
fn tray_menu() {
    assert_eq!(menu_action("show"), MenuAction::ShowWindow);
    assert_eq!(menu_action("toggle"), MenuAction::ToggleBroadcast);
    assert_eq!(menu_action("quit"), MenuAction::Quit);
    assert_eq!(menu_action("other"), MenuAction::Ignore);
    assert!(click_shows_window(true, true));
    assert!(!click_shows_window(true, false));
    assert!(!click_shows_window(false, true));
}
