use foothold::{SessionError, SyncConfig, Timestamp};

fn at(secs: u64, nanos: u32) -> Timestamp {
    Timestamp { before_epoch: false, secs, nanos }
}

#[test]
fn test_syncconfig_create_defaults() {
    let config = SyncConfig::create(None, None);
    // Should default to operation_count = Some(1)
    assert_eq!(config.operation_count, Some(1));
    assert_eq!(config.interval, None);
}

#[test]
fn test_syncconfig_create_zero_count() {
    let config = SyncConfig::create(None, Some(0));
    // Should default to operation_count = Some(1)
    assert_eq!(config.operation_count, Some(1));
}

#[test]
fn test_syncconfig_should_sync_by_count() {
    let mut config = SyncConfig::create(None, Some(2));
    // First call: ops_since_sync = 0, returns false
    assert!(!config.should_sync().unwrap());
    // Second call: ops_since_sync = 1, returns false
    assert!(!config.should_sync().unwrap());
    // Third call: ops_since_sync = 2, returns true
    assert!(config.should_sync().unwrap());
    // After sync, ops_since_sync should reset
    assert_eq!(config.ops_since_sync, 0);
}

#[test]
fn test_syncconfig_should_sync_by_interval() {
    let mut config = SyncConfig::create(Some(1), None);
    // Should not sync immediately
    assert!(!config.should_sync().unwrap());
    // Simulate time passing
    let now = Timestamp::now();
    config.last_sync = Timestamp { secs: now.secs - 2, ..now };
    // Should sync now
    assert!(config.should_sync().unwrap());
    // After sync, ops_since_sync should reset
    assert_eq!(config.ops_since_sync, 0);
}

#[test]
fn options_are_kept_as_given() {
    let now = at(7, 1);
    let config = SyncConfig::create_at(Some(10), Some(100), now);
    assert_eq!(config.interval, Some(10));
    assert_eq!(config.operation_count, Some(100));
    assert!(!config.each_operation);
    assert_eq!(config.last_sync, now);
    assert_eq!(config.ops_since_sync, 0);
    assert_eq!(SyncConfig::create_at(Some(10), None, now).operation_count, None);
    assert_eq!(SyncConfig::create_at(Some(10), Some(0), now).operation_count, Some(1));
}

#[test]
fn sync_is_issued_for_each_operation_without_limits() {
    for interval in [None, Some(0)] {
        for operation_count in [None, Some(0)] {
            let mut config = SyncConfig::create(interval, operation_count);
            for _ in 0..4 {
                assert_eq!(config.should_sync(), Ok(true));
            }
        }
    }
}

#[test]
fn count_operations_lie_between_two_syncs() {
    let mut config = SyncConfig::create(None, Some(1));
    let answers: Vec<bool> = (0..6).map(|_| config.should_sync().unwrap()).collect();
    assert_eq!(answers, vec![false, true, false, true, false, true]);
    let mut config = SyncConfig::create_at(None, Some(3), at(0, 0));
    let answers: Vec<bool> = (0..8).map(|i| config.should_sync_at(at(i, 0)).unwrap()).collect();
    assert_eq!(answers, vec![false, false, false, true, false, false, false, true]);
    assert_eq!(config.last_sync, at(7, 0));
}

#[test]
fn interval_is_counted_in_whole_seconds() {
    let mut config = SyncConfig::create_at(Some(2), None, at(10, 500));
    assert_eq!(config.should_sync_at(at(12, 499)), Ok(false));
    assert_eq!(config.ops_since_sync, 1);
    assert_eq!(config.should_sync_at(at(12, 500)), Ok(true));
    assert_eq!(config.last_sync, at(12, 500));
    assert_eq!(config.ops_since_sync, 0);
    assert_eq!(config.should_sync_at(at(14, 499)), Ok(false));
}

#[test]
fn clock_that_went_back_is_an_error_with_an_interval_only() {
    let ahead = Timestamp { before_epoch: false, secs: u64::MAX, nanos: 0 };
    let mut config = SyncConfig::create_at(Some(1), None, ahead);
    let before = config;
    assert_eq!(config.should_sync(), Err(SessionError::Clock));
    assert_eq!(config, before);
    let mut config = SyncConfig::create_at(None, Some(1), ahead);
    assert_eq!(config.should_sync(), Ok(false));
}

#[test]
fn a_reading_before_the_last_sync_is_an_error() {
    let mut config = SyncConfig::create_at(Some(1), Some(1), at(10, 1));
    assert_eq!(config.should_sync_at(at(10, 1)), Ok(false));
    let before = config;
    // The count calls for a sync, but the reading cannot be used.
    assert_eq!(config.should_sync_at(at(10, 0)), Err(SessionError::Clock));
    assert_eq!(config, before);
    assert_eq!(config.should_sync_at(at(10, 1)), Ok(true));
    let mut config = SyncConfig::create_at(None, Some(1), at(10, 1));
    assert_eq!(config.should_sync_at(at(0, 0)), Ok(false));
    assert_eq!(config.should_sync_at(at(0, 0)), Ok(true));
}

#[test]
fn counting_stops_at_the_largest_number_without_a_count() {
    let mut config = SyncConfig::create_at(Some(1), None, at(0, 0));
    assert!(config.has_room());
    config.ops_since_sync = u64::MAX;
    assert!(!config.has_room());
    config.operation_count = Some(u64::MAX);
    assert!(config.has_room());
    assert_eq!(config.should_sync_at(at(0, 0)), Ok(true));
}

#[test]
fn time_between_two_points() {
    let before = Timestamp { before_epoch: true, secs: 1, nanos: 250_000_000 };
    let after = at(2, 500_000_000);
    assert_eq!(after.nanos_since(&before), Some(3_750_000_000));
    assert_eq!(before.nanos_since(&after), None);
    assert_eq!(after.nanos_since(&at(2, 0)), Some(500_000_000));
    assert_eq!(at(2, 0).nanos_since(&after), None);
    assert_eq!(after.nanos_since(&after), Some(0));
    let earlier = Timestamp { before_epoch: true, secs: 3, nanos: 0 };
    assert_eq!(before.nanos_since(&earlier), Some(1_750_000_000));
    assert_eq!(earlier.nanos_since(&before), None);
    let epoch = Timestamp { before_epoch: true, secs: 0, nanos: 0 };
    assert_eq!(epoch.nanos_since(&at(0, 0)), Some(0));
}

#[test]
fn clock_moves_on_from_a_recent_time() {
    let now = Timestamp::now();
    assert!(!now.before_epoch);
    // The clock shows a time after the start of the year 2020.
    assert!(now.secs > 1_577_836_800);
    assert!(now.nanos < 1_000_000_000);
    let distance = std::time::SystemTime::now()
        .duration_since(std::time::SystemTime::UNIX_EPOCH)
        .unwrap();
    assert!(distance.as_secs() - now.secs <= 10);
}
