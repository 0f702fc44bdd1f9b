use codex_island::refresh::{after_attempt, initial_schedule, refresh_delay_secs, refresh_due, RefreshSchedule};

#[test]
fn delays_follow_the_backoff() {
    assert_eq!(refresh_delay_secs(0), 60);
    let expected = [30, 60, 120, 240, 480, 960, 1800, 1800];
    for (i, want) in expected.iter().enumerate() {
        assert_eq!(refresh_delay_secs(i as u32 + 1), *want);
    }
    assert_eq!(refresh_delay_secs(u32::MAX), 1800);
}

#[test]
fn schedule_after_attempts() {
    let s = initial_schedule();
    assert!(refresh_due(s, 0));
    let s = after_attempt(s, false, 1000);
    assert_eq!(s.consecutive_failures, 1);
    assert_eq!(s.due_at, 1030);
    assert!(!refresh_due(s, 1029));
    assert!(refresh_due(s, 1030));
    let s = after_attempt(s, false, 1030);
    assert_eq!(s.due_at, 1090);
    let s = after_attempt(s, true, 2000);
    assert_eq!(s.consecutive_failures, 0);
    assert_eq!(s.due_at, 2060);
    let s = after_attempt(RefreshSchedule { consecutive_failures: u32::MAX, due_at: 0 }, false, u64::MAX - 10);
    assert_eq!(s.consecutive_failures, u32::MAX);
    assert_eq!(s.due_at, u64::MAX);
}
