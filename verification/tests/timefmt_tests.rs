use projdash::timefmt::format_relative_time;

const NOW: u64 = 1_700_000_000;

#[test]
fn unknown_time_is_a_dash() {
    assert_eq!(format_relative_time(None, NOW), "—");
}

#[test]
fn future_time_is_a_dash() {
    assert_eq!(format_relative_time(Some(NOW + 1), NOW), "—");
}

#[test]
fn recent_buckets() {
    assert_eq!(format_relative_time(Some(NOW - 30), NOW), "just now");
    assert_eq!(format_relative_time(Some(NOW), NOW), "just now");
    assert_eq!(format_relative_time(Some(NOW - 90), NOW), "1m ago");
    assert_eq!(format_relative_time(Some(NOW - 7200), NOW), "2h ago");
    assert_eq!(format_relative_time(Some(NOW - 172800), NOW), "2d ago");
}

#[test]
fn bucket_boundaries() {
    assert_eq!(format_relative_time(Some(NOW - 59), NOW), "just now");
    assert_eq!(format_relative_time(Some(NOW - 60), NOW), "1m ago");
    assert_eq!(format_relative_time(Some(NOW - 3599), NOW), "59m ago");
    assert_eq!(format_relative_time(Some(NOW - 3600), NOW), "1h ago");
    assert_eq!(format_relative_time(Some(NOW - 86399), NOW), "23h ago");
    assert_eq!(format_relative_time(Some(NOW - 86400), NOW), "1d ago");
    assert_eq!(format_relative_time(Some(NOW - 2591999), NOW), "29d ago");
    assert_eq!(format_relative_time(Some(NOW - 2592000), NOW), "1mo ago");
    assert_eq!(format_relative_time(Some(NOW - 7776000), NOW), "3mo ago");
    assert_eq!(format_relative_time(Some(NOW - 31535999), NOW), "12mo ago");
    assert_eq!(format_relative_time(Some(NOW - 31536000), NOW), "1y ago");
    assert_eq!(format_relative_time(Some(NOW - 63072000), NOW), "2y ago");
}
