//! Dates, suffixes, settings and delays.
use mill_node::env::{
    heartbeat_interval, init_test_defaults, restart_backoff, snapshot_log_keep, snapshot_threshold,
    Settings,
};
use mill_node::primary::watchdog::{HeartbeatTracker, RestartState};
use mill_node::time::{Duration, Instant, SystemTime};
use mill_node::util::{days_to_ymd, format_system_time, rand_suffix, SuffixCounter};

fn at(secs: i64) -> SystemTime {
    SystemTime { secs, nanos: 0 }
}

#[test]
fn unix_epoch() {
    assert_eq!(format_system_time(&at(0)), "1970-01-01T00:00:00Z");
}

#[test]
fn known_2026_timestamp() {
    assert_eq!(format_system_time(&at(1771158645)), "2026-02-15T12:30:45Z");
}

#[test]
fn leap_year_feb_29() {
    assert_eq!(format_system_time(&at(1709164800)), "2024-02-29T00:00:00Z");
}

#[test]
fn times_before_the_epoch_count_as_the_epoch() {
    assert_eq!(format_system_time(&at(-1)), "1970-01-01T00:00:00Z");
}

#[test]
fn centuries_are_leap_years_every_fourth_time() {
    assert_eq!(days_to_ymd(0), (1970, 1, 1));
    assert_eq!(days_to_ymd(11016), (2000, 2, 29));
    assert_eq!(days_to_ymd(11017), (2000, 3, 1));
    assert_eq!(days_to_ymd(47540), (2100, 2, 28));
    assert_eq!(days_to_ymd(47541), (2100, 3, 1));
}

#[test]
fn suffixes_hold_the_time_and_a_count() {
    let mut counter = SuffixCounter::new();
    let now = SystemTime { secs: 0, nanos: 255 };
    let first = rand_suffix(&mut counter, now);
    let second = rand_suffix(&mut counter, now);
    assert_eq!(first, "000000ff0");
    assert_eq!(second, "000000ff1");
    assert_ne!(first, second);
    // A short clock part and a long number stay apart from a longer clock
    // part and a short number.
    let mut early = SuffixCounter { next: 0x23 };
    let mut late = SuffixCounter { next: 3 };
    let one = rand_suffix(&mut early, SystemTime { secs: 0, nanos: 1 });
    let two = rand_suffix(&mut late, SystemTime { secs: 0, nanos: 0x12 });
    assert_eq!(one, "0000000123");
    assert_eq!(two, "000000123");
    assert_ne!(one, two);
    let mut last = SuffixCounter { next: u64::MAX };
    assert_eq!(
        rand_suffix(&mut last, SystemTime { secs: 4, nanos: 294_967_295 }),
        "ffffffffffffffffffffffff",
    );
    assert_eq!(last.next, 0);
}

#[test]
fn backoff_schedule() {
    let mut settings = Settings::new();
    let backoff = restart_backoff(&mut settings);
    assert_eq!(backoff[0], Duration::from_secs(1));
    assert_eq!(backoff[1], Duration::from_secs(5));
    assert_eq!(backoff[2], Duration::from_secs(30));
    assert_eq!(backoff[3], Duration::from_secs(60));

    // Index clamped to len-1 for attempts beyond the array.
    for attempts in 4usize..10 {
        let idx = attempts.min(backoff.len() - 1);
        assert_eq!(backoff[idx], Duration::from_secs(60));
    }
}

#[test]
fn restart_state_backoff_not_elapsed() {
    let mut settings = Settings::new();
    let backoff = restart_backoff(&mut settings);
    let now = Instant { nanos: 5_000 };
    let state = RestartState { attempts: 0, last_attempt_at: now };

    // With 0 attempts, backoff is 1s — should not be elapsed immediately.
    let idx = state.attempts.min(backoff.len() - 1);
    let delay = backoff[idx];
    assert!(now.duration_since(state.last_attempt_at).nanos < delay.nanos);
}

#[test]
fn settings_are_read_once() {
    let mut settings = Settings::new();
    assert_eq!(heartbeat_interval(&mut settings, Some("250".to_string())), Duration::from_millis(250));
    assert_eq!(heartbeat_interval(&mut settings, Some("900".to_string())), Duration::from_millis(250));
}

#[test]
fn settings_that_are_no_numbers_count_as_unset() {
    let mut settings = Settings::new();
    assert_eq!(heartbeat_interval(&mut settings, Some("soon".to_string())), Duration::from_millis(5000));
    assert_eq!(snapshot_threshold(&mut settings, None), 5000);
    assert_eq!(snapshot_log_keep(&mut settings, Some("7".to_string())), 7);
}

#[test]
fn test_defaults_come_before_the_environment() {
    let mut settings = Settings::new();
    init_test_defaults(&mut settings);
    let fast = heartbeat_interval(&mut settings, Some("9999".to_string()));
    assert_ne!(fast, Duration::from_millis(9999));
}

#[test]
fn heartbeat_tracker_record_and_read() {
    let mut tracker = HeartbeatTracker::new();

    assert!(tracker.last_seen(1).is_none());

    tracker.record(1, Instant { nanos: 10 });
    let t1 = tracker.last_seen(1);
    assert!(t1.is_some());

    // Second record updates the timestamp.
    tracker.record(1, Instant { nanos: 5_000_010 });
    let t2 = tracker.last_seen(1).unwrap();
    assert!(t2.nanos > t1.unwrap().nanos);
}

#[test]
fn heartbeat_tracker_remove() {
    let mut tracker = HeartbeatTracker::new();
    tracker.record(1, Instant { nanos: 1 });
    assert!(tracker.last_seen(1).is_some());

    tracker.remove(1);
    assert!(tracker.last_seen(1).is_none());
}

#[test]
fn heartbeat_tracker_multiple_nodes() {
    let mut tracker = HeartbeatTracker::new();
    tracker.record(1, Instant { nanos: 1 });
    tracker.record(2, Instant { nanos: 1 });
    tracker.record(3, Instant { nanos: 1 });

    assert!(tracker.last_seen(1).is_some());
    assert!(tracker.last_seen(2).is_some());
    assert!(tracker.last_seen(3).is_some());
    assert!(tracker.last_seen(4).is_none());

    tracker.remove(2);
    assert!(tracker.last_seen(1).is_some());
    assert!(tracker.last_seen(2).is_none());
    assert!(tracker.last_seen(3).is_some());
}
