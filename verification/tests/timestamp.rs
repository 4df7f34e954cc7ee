use kiek_kafka::style::{Highlighting, Style};
use kiek_kafka::timestamp::{
    emphasis, format_timestamp, format_timestamp_millis, styled_timestamp, utc_day, Emphasis,
    StartDate, Timestamp, MILLIS_PER_DAY,
};

fn palette() -> Highlighting {
    let mut highlighting = Highlighting::plain();
    highlighting.bold = Style::new("<b>", "</b>");
    highlighting.plain = Style::new("<p>", "</p>");
    highlighting.dimmed = Style::new("<d>", "</d>");
    highlighting
}

const START: StartDate = StartDate { millis: 1_700_000_000_000, submilli_nanos: 0, local_day: 19675 };

#[test]
fn days_since_the_epoch() {
    assert_eq!(MILLIS_PER_DAY, 86_400_000);
    assert_eq!(utc_day(0), 0);
    assert_eq!(utc_day(86_399_999), 0);
    assert_eq!(utc_day(86_400_000), 1);
    assert_eq!(utc_day(-1), -1);
    assert_eq!(utc_day(-86_400_000), -1);
    assert_eq!(utc_day(-86_400_001), -2);
    assert_eq!(utc_day(1_700_000_000_000), 19675);
    assert_eq!(utc_day(i64::MAX), i64::MAX / 86_400_000);
    assert_eq!(utc_day(i64::MIN), i64::MIN.div_euclid(86_400_000));
}

#[test]
fn records_after_the_start_are_bold() {
    assert_eq!(emphasis(1_700_000_000_001, &START), Emphasis::Bold);
    assert_eq!(emphasis(1_800_000_000_000, &START), Emphasis::Bold);
}

#[test]
fn records_of_the_day_of_the_start_are_plain() {
    assert_eq!(emphasis(1_700_000_000_000, &START), Emphasis::Plain);
    assert_eq!(emphasis(19675 * 86_400_000, &START), Emphasis::Plain);
}

#[test]
fn older_records_are_dimmed() {
    assert_eq!(emphasis(19675 * 86_400_000 - 1, &START), Emphasis::Dimmed);
    assert_eq!(emphasis(0, &START), Emphasis::Dimmed);
}

#[test]
fn a_record_within_the_millisecond_after_the_start_is_not_after_it() {
    let start = StartDate { millis: 1_700_000_000_000, submilli_nanos: 300_000, local_day: 19675 };
    assert_eq!(emphasis(1_700_000_000_001, &start), Emphasis::Plain);
    assert_eq!(emphasis(1_700_000_000_002, &start), Emphasis::Bold);
    let latest = StartDate { millis: i64::MAX, submilli_nanos: 1, local_day: 0 };
    assert_eq!(emphasis(i64::MAX, &latest), Emphasis::Dimmed);
}

#[test]
fn the_day_of_the_start_is_its_local_day() {
    let start = StartDate { millis: 1_700_000_000_000, submilli_nanos: 0, local_day: 19676 };
    assert_eq!(emphasis(1_699_999_999_999, &start), Emphasis::Dimmed);
}

#[test]
fn styled_timestamp_wraps_the_text() {
    assert_eq!(
        styled_timestamp(1_700_000_000_001, "2023-11-14 22:13:20.001", &START, &palette()),
        "<b>2023-11-14 22:13:20.001</b>"
    );
    assert_eq!(
        styled_timestamp(1_700_000_000_000, "2023-11-14 22:13:20.000", &START, &palette()),
        "<p>2023-11-14 22:13:20.000</p>"
    );
    assert_eq!(styled_timestamp(0, "1970-01-01 00:00:00.000", &START, &palette()), "<d>1970-01-01 00:00:00.000</d>");
}

#[test]
fn timestamp_that_is_not_available() {
    assert_eq!(format_timestamp(&Timestamp::NotAvailable, &START, &palette()), None);
}

#[test]
fn timestamps_are_formatted_to_the_millisecond() {
    for timestamp in [Timestamp::CreateTime(1_700_000_000_123), Timestamp::LogAppendTime(1_700_000_000_123)] {
        let formatted = format_timestamp(&timestamp, &START, &palette()).unwrap();
        assert!(formatted.starts_with("<b>2023-11-1"));
        assert!(formatted.ends_with(".123</b>"));
        assert_eq!(formatted.len(), "<b>2023-11-14 22:13:20.123</b>".len());
    }
}

#[test]
fn timestamp_follows_the_local_zone() {
    let utc = chrono::DateTime::from_timestamp_millis(1_700_000_000_123).unwrap();
    let local = utc.with_timezone(&chrono::Local).format("%Y-%m-%d %H:%M:%S%.3f").to_string();
    assert_eq!(
        format_timestamp_millis(1_700_000_000_123, &START, &Highlighting::plain()),
        Some(local)
    );
}

#[test]
fn timestamp_beyond_the_calendar() {
    assert_eq!(format_timestamp(&Timestamp::CreateTime(i64::MAX), &START, &palette()), None);
    assert_eq!(format_timestamp_millis(i64::MIN, &START, &palette()), None);
}
