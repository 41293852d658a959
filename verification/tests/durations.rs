use tracklist::text::format_duration;

#[test]
fn zero_seconds_is_zero_minutes() {
    assert_eq!(format_duration(0), "0:00");
}

#[test]
fn seconds_below_a_minute_are_padded() {
    assert_eq!(format_duration(5), "0:05");
    assert_eq!(format_duration(59), "0:59");
}

#[test]
fn a_full_minute_rolls_over() {
    assert_eq!(format_duration(60), "1:00");
}

#[test]
fn three_minutes_five() {
    assert_eq!(format_duration(185), "3:05");
}

#[test]
fn last_second_of_an_hour() {
    assert_eq!(format_duration(3599), "59:59");
}

#[test]
fn minutes_are_not_folded_into_hours() {
    assert_eq!(format_duration(3600), "60:00");
    assert_eq!(format_duration(36_000), "600:00");
}

#[test]
fn largest_duration_formats() {
    assert_eq!(format_duration(u64::MAX), "307445734561825860:15");
}
