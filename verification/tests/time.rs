use archeio::time::{Timestamp, MAX_UNIX_SECS, MIN_UNIX_SECS};

fn ts(secs: i64, nanos: u32) -> Timestamp {
    Timestamp::new(secs, nanos).unwrap()
}

#[test]
fn timestamp_range_matches_chrono() {
    assert!(Timestamp::new(MIN_UNIX_SECS, 0).is_some());
    assert!(Timestamp::new(MAX_UNIX_SECS, 999_999_999).is_some());
    assert!(Timestamp::new(MIN_UNIX_SECS - 1, 0).is_none());
    assert!(Timestamp::new(MAX_UNIX_SECS + 1, 0).is_none());
    assert!(chrono::DateTime::<chrono::Utc>::from_timestamp(MIN_UNIX_SECS, 0).is_some());
    assert!(chrono::DateTime::<chrono::Utc>::from_timestamp(MAX_UNIX_SECS, 999_999_999).is_some());
    assert!(chrono::DateTime::<chrono::Utc>::from_timestamp(MIN_UNIX_SECS - 1, 0).is_none());
    assert!(chrono::DateTime::<chrono::Utc>::from_timestamp(MAX_UNIX_SECS + 1, 0).is_none());
}

#[test]
fn leap_second_only_after_59() {
    assert!(Timestamp::new(59, 1_500_000_000).is_some());
    assert!(Timestamp::new(58, 1_500_000_000).is_none());
    assert!(Timestamp::new(-1, 1_000_000_000).is_some());
    assert!(Timestamp::new(59, 2_000_000_000).is_none());
}

#[test]
fn rfc3339_text() {
    assert_eq!(ts(0, 0).to_rfc3339(), "1970-01-01T00:00:00+00:00");
    assert_eq!(ts(1_715_178_720, 0).to_rfc3339(), "2024-05-08T14:32:00+00:00");
    assert_eq!(ts(1_715_178_720, 500_000_000).to_rfc3339(), "2024-05-08T14:32:00.500+00:00");
}

#[test]
fn ordering_of_instants() {
    assert!(ts(10, 0).le(&ts(10, 0)));
    assert!(ts(10, 0).le(&ts(10, 1)));
    assert!(!ts(10, 1).le(&ts(10, 0)));
    assert!(ts(9, 999_999_999).le(&ts(10, 0)));
}

#[test]
fn adding_and_subtracting_seconds() {
    let t = ts(1000, 250);
    let later = t.plus_seconds(3600);
    assert_eq!((later.secs(), later.nanos()), (4600, 250));
    let earlier = t.minus_seconds(30);
    assert_eq!((earlier.secs(), earlier.nanos()), (970, 250));
    // A leap second is folded into the next second before moving.
    let leap = ts(59, 1_200_000_000);
    let moved = leap.plus_seconds(1);
    assert_eq!((moved.secs(), moved.nanos()), (60, 200_000_000));
    let back = leap.minus_seconds(30);
    assert_eq!((back.secs(), back.nanos()), (30, 200_000_000));
}

#[test]
fn whole_seconds_between_instants() {
    assert_eq!(ts(105, 0).seconds_since(&ts(100, 0)), 5);
    assert_eq!(ts(104, 999_999_999).seconds_since(&ts(100, 0)), 4);
    assert_eq!(ts(100, 0).seconds_since(&ts(104, 999_999_999)), -4);
    assert_eq!(ts(100, 0).seconds_since(&ts(105, 0)), -5);
}

#[test]
fn whole_seconds_across_leap_seconds() {
    assert_eq!(ts(59, 1_500_000_000).seconds_since(&ts(0, 0)), 60);
    assert_eq!(ts(61, 0).seconds_since(&ts(59, 1_500_000_000)), 1);
    assert_eq!(ts(59, 1_500_000_000).seconds_since(&ts(59, 500_000_000)), 1);
}
