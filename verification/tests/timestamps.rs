use minskatt::text::{decimal_text, parse_bounded};
use minskatt::timestamp::{CalendarDate, Timestamp};

#[test]
fn dates_follow_the_calendar() {
    assert!(CalendarDate::new(2020, 2, 29).is_some());
    assert!(CalendarDate::new(2019, 2, 29).is_none());
    assert!(CalendarDate::new(1900, 2, 29).is_none());
    assert!(CalendarDate::new(2000, 2, 29).is_some());
    assert!(CalendarDate::new(2023, 4, 31).is_none());
    assert!(CalendarDate::new(2023, 4, 30).is_some());
    assert!(CalendarDate::new(2023, 12, 31).is_some());
    assert!(CalendarDate::new(2023, 13, 1).is_none());
    assert!(CalendarDate::new(2023, 0, 1).is_none());
    assert!(CalendarDate::new(2023, 1, 0).is_none());
    assert!(CalendarDate::new(0, 1, 1).is_some());
    assert!(CalendarDate::new(9999, 12, 31).is_some());
    assert!(CalendarDate::new(10000, 1, 1).is_none());
    let date = CalendarDate::new(2020, 2, 29).unwrap();
    assert_eq!((date.year(), date.month(), date.day()), (2020, 2, 29));
}

#[test]
fn times_follow_the_clock() {
    assert!(Timestamp::new(2020, 1, 1, 23, 59, 59).is_some());
    assert!(Timestamp::new(2020, 1, 1, 0, 0, 0).is_some());
    assert!(Timestamp::new(2020, 1, 1, 24, 0, 0).is_none());
    assert!(Timestamp::new(2020, 1, 1, 23, 60, 0).is_none());
    assert!(Timestamp::new(2020, 1, 1, 23, 59, 60).is_none());
    assert!(Timestamp::new(2019, 2, 29, 0, 0, 0).is_none());
}

#[test]
fn timestamps_are_written_with_fixed_widths() {
    let t = Timestamp::new(2013, 4, 28, 17, 45, 57).unwrap();
    assert_eq!(t.date(), CalendarDate::new(2013, 4, 28).unwrap());
    assert_eq!((t.hour(), t.minute(), t.second()), (17, 45, 57));
    assert_eq!(t.to_text(), "20130428 174557");
    let early = Timestamp::new(7, 1, 2, 3, 4, 5).unwrap();
    assert_eq!(early.to_text(), "00070102 030405");
    let late = Timestamp::new(9999, 12, 31, 23, 59, 59).unwrap();
    assert_eq!(late.to_text(), "99991231 235959");
}

#[test]
fn timestamps_are_read_back_from_their_text() {
    for t in [
        Timestamp::new(2013, 4, 28, 17, 45, 57).unwrap(),
        Timestamp::new(7, 1, 2, 3, 4, 5).unwrap(),
        Timestamp::new(2000, 2, 29, 0, 0, 0).unwrap(),
    ] {
        let chars: Vec<char> = t.to_text().chars().collect();
        assert_eq!(Timestamp::parse(&chars, 0, chars.len()), Some(t));
    }
    let chars: Vec<char> = "xx20200229yy".chars().collect();
    assert_eq!(CalendarDate::parse(&chars, 2, 10), CalendarDate::new(2020, 2, 29));
    assert_eq!(CalendarDate::parse(&chars, 2, 9), None);
    assert_eq!(CalendarDate::parse(&chars, 1, 9), None);
}

#[test]
fn decimal_texts() {
    assert_eq!(decimal_text(0), "0");
    assert_eq!(decimal_text(7), "7");
    assert_eq!(decimal_text(12345), "12345");
    assert_eq!(decimal_text(4294967295), "4294967295");
    let chars: Vec<char> = "0004294967295".chars().collect();
    assert_eq!(parse_bounded(&chars, 0, chars.len(), u32::MAX), Some(4294967295));
    assert_eq!(parse_bounded(&chars, 0, chars.len(), 4294967294), None);
    assert_eq!(parse_bounded(&chars, 3, 3, u32::MAX), None);
    assert_eq!(parse_bounded(&chars, 0, 3, 0), Some(0));
}
