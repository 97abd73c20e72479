use pomodoro::error::StorageError;
use pomodoro::input::{is_white_space, parse_u32, trim};
use pomodoro::text::{clock_text, format_duration, format_time_of_day, format_when, DAY_MS};

#[test]
fn clock_pads_minutes_and_seconds() {
    assert_eq!(clock_text(0), "00:00");
    assert_eq!(clock_text(65), "01:05");
    assert_eq!(clock_text(1_500), "25:00");
    assert_eq!(clock_text(7_200), "120:00");
    assert_eq!(clock_text(599), "09:59");
}

#[test]
fn durations_in_minutes() {
    assert_eq!(format_duration(1_500), "25m");
    assert_eq!(format_duration(0), "0m");
    assert_eq!(format_duration(65), "1:05");
    assert_eq!(format_duration(59), "0:59");
    assert_eq!(format_duration(7_230), "120:30");
}

#[test]
fn when_today_yesterday_or_date() {
    let today = 10 * DAY_MS;
    assert_eq!(format_when(today + 5, today, 2, 14, 9, 5), "Today 09:05");
    assert_eq!(format_when(today, today, 2, 14, 0, 0), "Today 00:00");
    assert_eq!(format_when(today - 1, today, 2, 13, 23, 59), "Yesterday 23:59");
    assert_eq!(format_when(today - DAY_MS, today, 2, 13, 0, 0), "Yesterday 00:00");
    assert_eq!(format_when(today - DAY_MS - 1, today, 2, 12, 23, 59), "Mar 12 23:59");
    assert_eq!(format_when(0, today, 0, 1, 12, 30), "Jan 1 12:30");
    assert_eq!(format_when(0, today, 11, 31, 7, 8), "Dec 31 07:08");
    assert_eq!(format_when(0, today, 42, 31, 7, 8), "Dec 31 07:08");
}

#[test]
fn time_of_day() {
    assert_eq!(format_time_of_day(7, 3), "07:03");
    assert_eq!(format_time_of_day(23, 59), "23:59");
}

#[test]
fn parse_like_std() {
    for s in ["0", "7", "25", "+25", "0042", "4294967295", "4294967296", "", "+", "-", "-5", " 5", "5 ", "1a", "++5", "99999999999", "+0"] {
        assert_eq!(parse_u32(s), s.parse::<u32>().ok(), "input {:?}", s);
    }
    assert_eq!(parse_u32("25"), Some(25));
    assert_eq!(parse_u32("abc"), None);
}

#[test]
fn trim_like_std() {
    for s in ["", "   ", "abc", "  abc ", "\tabc\n", "a b", "\u{3000}x\u{2028}", "\u{a0}\u{85}y", " \u{200b}z "] {
        assert_eq!(trim(s), s.trim(), "input {:?}", s);
    }
}

#[test]
fn white_space_like_std() {
    for c in ['\t', '\n', '\u{b}', '\u{c}', '\r', ' ', '\u{85}', '\u{a0}', '\u{1680}', '\u{2000}', '\u{200a}', '\u{2028}', '\u{2029}', '\u{202f}', '\u{205f}', '\u{3000}', 'a', '\u{200b}', '\u{180e}', '\u{feff}', '0'] {
        assert_eq!(is_white_space(c), c.is_whitespace(), "char {:?}", c);
    }
}

#[test]
fn not_found_messages() {
    assert_eq!(StorageError::not_found("session", 42).0, "session 42 not found");
    assert_eq!(StorageError::not_found("task", 0).message(), "task 0 not found");
    assert_eq!(StorageError::not_found("pause", u64::MAX).0, "pause 18446744073709551615 not found");
}
