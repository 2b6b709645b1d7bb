use sourdough_timer::display::{format_elapsed, split_hms, Hms};

#[test]
fn formats_an_hour_a_minute_and_a_second() {
    assert_eq!(format_elapsed(3661), "01:01:01");
}

#[test]
fn formats_under_a_minute() {
    assert_eq!(format_elapsed(59), "00:00:59");
}

#[test]
fn formats_a_full_hour() {
    assert_eq!(format_elapsed(3600), "01:00:00");
}

#[test]
fn formats_zero() {
    assert_eq!(format_elapsed(0), "00:00:00");
}

#[test]
fn formats_single_and_double_digits() {
    assert_eq!(format_elapsed(9), "00:00:09");
    assert_eq!(format_elapsed(10), "00:00:10");
    assert_eq!(format_elapsed(60), "00:01:00");
    assert_eq!(format_elapsed(599), "00:09:59");
    assert_eq!(format_elapsed(600), "00:10:00");
    assert_eq!(format_elapsed(35999), "09:59:59");
    assert_eq!(format_elapsed(36000), "10:00:00");
}

#[test]
fn hours_grow_beyond_two_digits() {
    assert_eq!(format_elapsed(359_999), "99:59:59");
    assert_eq!(format_elapsed(360_000), "100:00:00");
    assert_eq!(format_elapsed(3_600_000 + 62), "1000:01:02");
}

#[test]
fn formats_the_largest_value() {
    assert_eq!(format_elapsed(u64::MAX), "5124095576030431:00:15");
}

#[test]
fn formatting_agrees_with_zero_padded_fields() {
    let mut secs: u64 = 0;
    while secs < 400_000 {
        let h = secs / 3600;
        let m = (secs / 60) % 60;
        let s = secs % 60;
        assert_eq!(format_elapsed(secs), format!("{:02}:{:02}:{:02}", h, m, s));
        secs += 37;
    }
}

#[test]
fn splits_into_hours_minutes_seconds() {
    assert_eq!(split_hms(3661), Hms { hours: 1, minutes: 1, seconds: 1 });
    assert_eq!(split_hms(59), Hms { hours: 0, minutes: 0, seconds: 59 });
    assert_eq!(split_hms(3600), Hms { hours: 1, minutes: 0, seconds: 0 });
    assert_eq!(split_hms(7325), Hms { hours: 2, minutes: 2, seconds: 5 });
}

#[test]
fn split_parts_add_up_again() {
    for secs in [0u64, 1, 59, 60, 61, 3599, 3600, 86_399, 86_400, u64::MAX] {
        let hms = split_hms(secs);
        assert!(hms.minutes < 60);
        assert!(hms.seconds < 60);
        assert_eq!(hms.hours * 3600 + hms.minutes * 60 + hms.seconds, secs);
    }
}
