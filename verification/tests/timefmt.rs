use dirlist::timefmt::TimeParts;
use dirlist::timefmt::format_datetime;
use dirlist::timefmt::format_time_parts;
use dirlist::timefmt::unavailable_time;

#[test]
fn renders_single_digit_day_space_padded() {
    let t = TimeParts { month: 1, day: 5, hour: 14, minute: 3, second: 22 };
    assert_eq!(format_time_parts(&t), "Jan  5 14:03:22");
}

#[test]
fn renders_double_digit_day() {
    let t = TimeParts { month: 12, day: 15, hour: 9, minute: 30, second: 0 };
    assert_eq!(format_time_parts(&t), "Dec 15 09:30:00");
}

#[test]
fn renders_extreme_clock_values() {
    let t = TimeParts { month: 6, day: 30, hour: 23, minute: 59, second: 59 };
    assert_eq!(format_time_parts(&t), "Jun 30 23:59:59");
    let t = TimeParts { month: 2, day: 1, hour: 0, minute: 0, second: 0 };
    assert_eq!(format_time_parts(&t), "Feb  1 00:00:00");
}

#[test]
fn renders_every_month_abbreviation() {
    let expected = [
        "Jan", "Feb", "Mar", "Apr", "May", "Jun", "Jul", "Aug", "Sep", "Oct", "Nov", "Dec",
    ];
    for m in 1u32..=12 {
        let t = TimeParts { month: m, day: 10, hour: 12, minute: 0, second: 0 };
        let s = format_time_parts(&t);
        assert_eq!(&s[..3], expected[(m - 1) as usize]);
    }
}

#[test]
fn absent_time_renders_placeholder() {
    assert_eq!(format_datetime(None), "--- -- --:--:--");
    assert_eq!(unavailable_time(), "--- -- --:--:--");
}

#[test]
fn present_time_renders_a_real_time() {
    let s = format_datetime(Some(86_400));
    assert_eq!(s.chars().count(), 15);
    assert_ne!(s, "--- -- --:--:--");
    assert_eq!(s.as_bytes()[3] as char, ' ');
    assert_eq!(s.as_bytes()[6] as char, ' ');
    assert_eq!(s.as_bytes()[9] as char, ':');
    assert_eq!(s.as_bytes()[12] as char, ':');
}

#[test]
fn present_times_keep_the_fixed_width() {
    for secs in [0i64, 1_000_000_000, 4_102_444_799] {
        assert_eq!(format_datetime(Some(secs)).chars().count(), 15);
    }
}
