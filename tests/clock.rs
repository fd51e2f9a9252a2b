use sensor_node::clock::duration_to_next_rounded_wakeup;
use sensor_node::clock::is_valid_utc_offset;
use sensor_node::clock::next_rounded_wakeup;
use sensor_node::clock::Clock;
use sensor_node::clock::Error as ClockError;
use sensor_node::clock::RetainedClock;
use sensor_node::clock::WallTime;

/// 2024-01-01 09:46:12 UTC
const MORNING: u64 = 1_704_102_372;

#[test]
fn rounded_wakeup_one_minute() {
    // 09:47:00
    assert_eq!(next_rounded_wakeup(MORNING, 60), 1_704_102_420);
    assert_eq!(duration_to_next_rounded_wakeup(MORNING, 60), 48);
}

#[test]
fn rounded_wakeup_five_minutes() {
    // 09:50:00
    assert_eq!(next_rounded_wakeup(MORNING, 300), 1_704_102_600);
}

#[test]
fn rounded_wakeup_one_hour() {
    // 10:00:00
    assert_eq!(next_rounded_wakeup(MORNING, 3600), 1_704_103_200);
}

#[test]
fn rounded_wakeup_on_a_boundary_moves_a_full_period() {
    assert_eq!(next_rounded_wakeup(120, 60), 180);
    assert_eq!(duration_to_next_rounded_wakeup(120, 60), 60);
    assert_eq!(next_rounded_wakeup(0, 1), 1);
}

#[test]
fn rounded_wakeup_never_repeats() {
    let first = next_rounded_wakeup(MORNING, 300);
    let second = next_rounded_wakeup(first, 300);
    assert_eq!(second, first + 300);
    assert_eq!(first % 300, 0);
    assert!(first > MORNING && first - MORNING <= 300);
}

#[test]
fn clock_reads_boot_time_plus_uptime() {
    let clock = Clock::new_at(1_000_000, 3600, 10);
    assert_eq!(clock.boot_time(), 999_990);
    assert_eq!(clock.offset(), 3600);
    assert_eq!(clock.now_as_epoch_at(10), 1_000_000);
    assert_eq!(clock.now_as_epoch_at(25), 1_000_015);
    assert_eq!(
        clock.now_at(10),
        Ok(WallTime { unix_timestamp: 1_000_000, offset_seconds: 3600 })
    );
}

#[test]
fn clock_rounded_wakeup_from_uptime() {
    let clock = Clock::new_at(MORNING, 0, 0);
    assert_eq!(clock.duration_to_next_rounded_wakeup_at(60, 0), Some(48));
    assert_eq!(clock.duration_to_next_rounded_wakeup_at(60, 48), Some(60));
    let late = Clock::new_at(u64::MAX - 10, 0, 0);
    assert_eq!(late.duration_to_next_rounded_wakeup_at(60, 0), None);
}

#[test]
fn clock_continuity_across_sleep() {
    let wall_time = 1_700_000_000;
    let a = Clock::new_at(wall_time, 0, 5);
    let stored = a.save_to_rtc_memory_at(300, 65);
    assert_eq!(stored, RetainedClock { epoch: wall_time + 60 + 300, offset_seconds: 0 });
    let b = Clock::from_rtc_memory(stored).unwrap();
    assert_eq!(b.now_as_epoch_at(0), wall_time + 300 + 60);
    assert_ne!(b.now_as_epoch_at(0), wall_time);
}

#[test]
fn restored_clock_keeps_stored_epoch_as_boot_time() {
    let stored = RetainedClock { epoch: 1000, offset_seconds: 0 };
    let clock = Clock::from_rtc_memory(stored).unwrap();
    assert_eq!(clock.boot_time(), 1000);
    assert_eq!(clock.now_as_epoch_at(10), 1010);
}

#[test]
fn sleep_duration_carries_across_power_cycle() {
    let a = Clock::new_at(1_700_000_000, 0, 3);
    let b1 = Clock::from_rtc_memory(a.save_to_rtc_memory_at(300, 50)).unwrap();
    let b2 = Clock::from_rtc_memory(a.save_to_rtc_memory_at(900, 50)).unwrap();
    assert_eq!(b2.now_as_epoch_at(7) - b1.now_as_epoch_at(7), 600);
}

#[test]
fn cold_boot_has_no_clock() {
    assert!(Clock::from_rtc_memory(RetainedClock { epoch: 0, offset_seconds: 0 }).is_none());
    assert!(Clock::from_rtc_memory(RetainedClock { epoch: 0, offset_seconds: 3600 }).is_none());
}

#[test]
fn stored_clock_with_invalid_offset_is_dropped() {
    let stored = RetainedClock { epoch: 1_700_000_000, offset_seconds: 100_000 };
    assert!(Clock::from_rtc_memory(stored).is_none());
}

#[test]
fn utc_offset_bounds() {
    assert!(is_valid_utc_offset(0));
    assert!(is_valid_utc_offset(93_599));
    assert!(is_valid_utc_offset(-93_599));
    assert!(!is_valid_utc_offset(93_600));
    assert!(!is_valid_utc_offset(-93_600));
}

#[test]
fn time_beyond_the_calendar_is_out_of_range() {
    let clock = Clock::new_at(253_402_300_800, 0, 0);
    assert_eq!(clock.now_at(0), Err(ClockError::TimeComponentRange));
    let clock = Clock::new_at(253_402_300_799, 0, 0);
    assert!(clock.now_at(0).is_ok());
    let clock = Clock::new_at(u64::MAX, 0, 0);
    assert_eq!(clock.now_at(5), Err(ClockError::TimeComponentRange));
}

#[test]
fn time_invalid_in_offset() {
    let clock = Clock::new_at(253_402_300_799, 3600, 0);
    assert_eq!(clock.now_at(0), Err(ClockError::InvalidInOffset));
    let clock = Clock::new_at(1_700_000_000, 3600, 0);
    assert_eq!(clock.now_at(0), Ok(WallTime { unix_timestamp: 1_700_000_000, offset_seconds: 3600 }));
    let clock = Clock::new_at(253_402_300_799 - 3600, 3600, 0);
    assert!(clock.now_at(0).is_ok());
    let clock = Clock::new_at(253_402_300_799 - 3599, 3600, 0);
    assert_eq!(clock.now_at(0), Err(ClockError::InvalidInOffset));
    let clock = Clock::new_at(253_402_300_799, -3600, 0);
    assert_eq!(
        clock.now_at(0),
        Ok(WallTime { unix_timestamp: 253_402_300_799, offset_seconds: -3600 })
    );
}

#[test]
fn clock_from_server() {
    let fetched = WallTime { unix_timestamp: 1_700_000_000, offset_seconds: 7200 };
    let clock = Clock::from_server_at(fetched, 30).unwrap();
    assert_eq!(clock.boot_time(), 1_699_999_970);
    assert_eq!(clock.offset(), 7200);
    assert_eq!(Clock::from_server(Err(ClockError::InvalidInOffset)).err(), Some(ClockError::Synchronization));
    assert_eq!(
        Clock::from_server(Ok(WallTime { unix_timestamp: -1, offset_seconds: 0 })).err(),
        Some(ClockError::TimeComponentRange)
    );
    assert_eq!(
        Clock::from_server(Ok(WallTime { unix_timestamp: 5, offset_seconds: 200_000 })).err(),
        Some(ClockError::TimeComponentRange)
    );
}

#[test]
fn clock_with_live_uptime() {
    let clock = Clock::new(2_000_000_000, 0);
    assert!(clock.boot_time() <= 2_000_000_000);
    let now = clock.now_as_epoch();
    assert!(now >= clock.boot_time());
    let wall = clock.now().unwrap();
    assert_eq!(wall.offset_seconds, 0);
    assert!(wall.unix_timestamp as u64 >= clock.boot_time());
    let stored = clock.save_to_rtc_memory(300);
    assert!(stored.epoch >= clock.boot_time() + 300);
    let wait = clock.duration_to_next_rounded_wakeup(60).unwrap();
    assert!(wait > 0 && wait <= 60);
    let restored = Clock::from_rtc_memory(stored).unwrap();
    assert_eq!(restored.boot_time(), stored.epoch);
    let (wall, epoch) = clock.reading_time();
    assert_eq!(wall.unwrap().unix_timestamp as u64, epoch);
}
