use ringer::time::{
    display_timestamp, format_second_stamp, humanize_span, millis_between, seconds_between,
    CALENDAR_MAX_MICROS, CALENDAR_MIN_MICROS, MICROS_PER_HOUR,
};

#[test]
fn spans_round_toward_zero() {
    assert_eq!(seconds_between(2_500_000, 0), 2);
    assert_eq!(seconds_between(0, 2_500_000), -2);
    assert_eq!(seconds_between(999_999, 0), 0);
    assert_eq!(millis_between(1_999, 0), 1);
    assert_eq!(millis_between(0, 1_999), -1);
    assert_eq!(millis_between(MICROS_PER_HOUR, 0), 3_600_000);
}

#[test]
fn writes_instants_as_chrono_does() {
    assert_eq!(display_timestamp(0), "1970-01-01 00:00:00");
    assert_eq!(display_timestamp(1_500_000), "1970-01-01 00:00:01.500");
    assert_eq!(display_timestamp(1_496_318_400_000_000), "2017-06-01 12:00:00");
    assert_eq!(format_second_stamp(1_496_318_400_250_000), "2017-06-01T12:00:00");
    assert_eq!(display_timestamp(-1_000_000), "1969-12-31 23:59:59");
}

#[test]
fn writes_spans_in_words() {
    let now = 1_496_318_400_000_000;
    assert_eq!(humanize_span(now, now), "now");
    assert_eq!(humanize_span(now - 2 * 24 * MICROS_PER_HOUR, now), "2 days ago");
    assert_eq!(humanize_span(now + 3 * MICROS_PER_HOUR, now), "in 3 hours");
}

#[test]
fn calendar_bounds_are_chronos() {
    assert!(chrono::DateTime::from_timestamp_micros(CALENDAR_MIN_MICROS).is_some());
    assert!(chrono::DateTime::from_timestamp_micros(CALENDAR_MIN_MICROS - 1).is_none());
    assert!(chrono::DateTime::from_timestamp_micros(CALENDAR_MAX_MICROS).is_some());
    assert!(chrono::DateTime::from_timestamp_micros(CALENDAR_MAX_MICROS + 1).is_none());
    assert_eq!(display_timestamp(CALENDAR_MIN_MICROS), "-262143-01-01 00:00:00");
    assert_eq!(display_timestamp(CALENDAR_MAX_MICROS), "+262142-12-31 23:59:59.999999");
    assert_eq!(seconds_between(CALENDAR_MAX_MICROS, CALENDAR_MIN_MICROS), 16_544_868_105_599);
}
