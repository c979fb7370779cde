use file_version_monitor::Bouncer;

#[test]
fn two_writes_within_window_yield_one_run() {
    let mut b: Bouncer<u32> = Bouncer::new(500);
    assert_eq!(b.debounce("C:/a/app.exe".to_string(), 1, 0), None);
    assert_eq!(b.debounce("C:/a/app.exe".to_string(), 2, 100), Some(1));
    assert_eq!(b.len(), 1);
    assert_eq!(b.next_due(), Some(600));
    assert!(b.pop_due(599).is_none());
    assert_eq!(b.pop_due(600), Some(("C:/a/app.exe".to_string(), 2)));
    assert!(b.pop_due(u64::MAX).is_none());
    assert_eq!(b.len(), 0);
    assert_eq!(b.next_due(), None);
}

#[test]
fn distinct_keys_run_on_their_own_schedules() {
    let mut b: Bouncer<&str> = Bouncer::new(500);
    assert_eq!(b.debounce("k1".to_string(), "a", 0), None);
    assert_eq!(b.debounce("k2".to_string(), "b", 300), None);
    assert_eq!(b.next_due(), Some(500));
    assert_eq!(b.pop_due(500), Some(("k1".to_string(), "a")));
    assert!(b.pop_due(799).is_none());
    assert_eq!(b.pop_due(800), Some(("k2".to_string(), "b")));
}

#[test]
fn due_time_saturates() {
    let mut b: Bouncer<u8> = Bouncer::new(500);
    b.debounce("k".to_string(), 1, u64::MAX - 10);
    assert_eq!(b.next_due(), Some(u64::MAX));
    assert_eq!(b.pop_due(u64::MAX), Some(("k".to_string(), 1)));
}
