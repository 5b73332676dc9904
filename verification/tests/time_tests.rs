use activity_feed::time::{
    parse_calendar_timestamp, parse_microblog_timestamp, relative_time, relative_time_between,
};

#[test]
fn parses_calendar_timestamp_to_epoch_seconds() {
    assert_eq!(parse_calendar_timestamp("2019-01-01T00:00:00Z"), Some(1546300800));
    assert_eq!(parse_calendar_timestamp("1970-01-01T00:00:00Z"), Some(0));
}

#[test]
fn rejects_malformed_calendar_timestamp() {
    assert_eq!(parse_calendar_timestamp("not-a-date"), None);
    assert_eq!(parse_calendar_timestamp("2019-01-01 00:00:00"), None);
    assert_eq!(parse_calendar_timestamp(""), None);
}

#[test]
fn parses_microblog_timestamp_to_epoch_seconds() {
    assert_eq!(
        parse_microblog_timestamp("Tue Jan 01 00:00:00 +0000 2019"),
        Some(1546300800)
    );
}

#[test]
fn rejects_malformed_microblog_timestamp() {
    assert_eq!(parse_microblog_timestamp("2019-01-01T00:00:00Z"), None);
}

#[test]
fn renders_rough_relative_times() {
    let now: i64 = 1546300800;
    assert_eq!(relative_time_between(now - 3600, now), "an hour ago");
    assert_eq!(relative_time_between(now - 2 * 86400, now), "2 days ago");
    assert_eq!(relative_time_between(now, now), "now ago");
}

#[test]
fn relative_time_is_never_empty() {
    assert!(!relative_time(0).is_empty());
    assert!(!relative_time(1546300800).is_empty());
}

#[test]
fn parse_then_render_is_defined_for_valid_input() {
    let ts = parse_calendar_timestamp("2019-01-01T00:00:00Z").unwrap();
    let rendered = relative_time(ts);
    assert!(!rendered.is_empty());
}
