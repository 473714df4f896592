use basket::timefmt::{timestamp_of_offset, unix_now, EpochOffset};
use basket::ui::{format_relative_time, format_relative_time_at};

#[test]
fn format_relative_time_ranges() {
    assert_eq!(format_relative_time_at(1000, 1000), "just now");
    assert_eq!(format_relative_time_at(940, 1000), "1m ago");
    assert_eq!(format_relative_time_at(3600, 7200), "1h ago");
    assert_eq!(format_relative_time_at(86_400, 172_800), "1d ago");
    assert_eq!(format_relative_time_at(604_800, 1_209_600), "1w ago");
}

#[test]
fn relative_time_edges() {
    assert_eq!(format_relative_time_at(2000, 1000), "just now");
    assert_eq!(format_relative_time_at(0, 59), "just now");
    assert_eq!(format_relative_time_at(0, 3599), "59m ago");
    assert_eq!(format_relative_time_at(0, 86_399), "23h ago");
    assert_eq!(format_relative_time_at(0, 604_799), "6d ago");
    assert_eq!(format_relative_time_at(i64::MIN, i64::MAX), "15250284452471w ago");
    assert_eq!(format_relative_time_at(i64::MAX, i64::MIN), "just now");
}

#[test]
fn clock_reading_is_a_recent_unix_time() {
    let now = unix_now();
    // 2024-01-01 00:00:00 UTC
    assert!(now > 1_704_067_200);
}

#[test]
fn relative_time_is_measured_against_the_reading() {
    let (text, now) = format_relative_time(1_000);
    assert!(now > 1_704_067_200);
    assert_eq!(text, format_relative_time_at(1_000, now));
    assert!(text.ends_with("w ago"));
}

#[test]
fn clock_offsets_become_signed_timestamps() {
    assert_eq!(timestamp_of_offset(&EpochOffset::After(1_709_933_342)), 1_709_933_342);
    assert_eq!(timestamp_of_offset(&EpochOffset::Before(5)), -5);
    assert_eq!(timestamp_of_offset(&EpochOffset::After(0)), 0);
    assert_eq!(timestamp_of_offset(&EpochOffset::After(u64::MAX)), i64::MAX);
    assert_eq!(timestamp_of_offset(&EpochOffset::Before(u64::MAX)), -i64::MAX);
}
