use chrono::NaiveTime;
use mobility_map::time_parser::{parse_clock_fields, parse_messy_time, TimeParseError};

#[test]
fn reads_a_plain_time() {
    assert_eq!(
        parse_messy_time("08:15:30").unwrap(),
        NaiveTime::from_hms_opt(8, 15, 30).unwrap()
    );
}

#[test]
fn hours_past_midnight_wrap_around() {
    assert_eq!(
        parse_messy_time("25:00:01").unwrap(),
        NaiveTime::from_hms_opt(1, 0, 1).unwrap()
    );
    assert_eq!(
        parse_messy_time("24:00:03").unwrap(),
        NaiveTime::from_hms_opt(0, 0, 3).unwrap()
    );
    assert_eq!(
        parse_messy_time("27:59:59").unwrap(),
        NaiveTime::from_hms_opt(3, 59, 59).unwrap()
    );
}

#[test]
fn hours_a_day_apart_read_the_same() {
    assert_eq!(
        parse_messy_time("05:06:07").unwrap(),
        parse_messy_time("29:06:07").unwrap()
    );
    assert_eq!(parse_clock_fields("4294967295:1:2").unwrap(), (15, 1, 2));
}

#[test]
fn fields_may_have_a_plus_sign_and_leading_zeros() {
    assert_eq!(parse_clock_fields("+7:007:+08").unwrap(), (7, 7, 8));
    assert_eq!(
        parse_messy_time("+7:007:+08").unwrap(),
        NaiveTime::from_hms_opt(7, 7, 8).unwrap()
    );
}

#[test]
fn wrong_number_of_fields_is_refused() {
    let e = parse_messy_time("12:00").unwrap_err();
    assert!(matches!(&e, TimeParseError::InvalidFormat { value } if value == "12:00"));
    assert_eq!(e.message(), "Invalid time `12:00` found. Expected hh:mm:ss format");
    assert!(matches!(
        parse_messy_time("1:2:3:4").unwrap_err(),
        TimeParseError::InvalidFormat { .. }
    ));
    assert!(matches!(
        parse_messy_time("").unwrap_err(),
        TimeParseError::InvalidFormat { .. }
    ));
}

#[test]
fn non_numbers_are_refused() {
    for bad in ["aa:00:00", "12::00", "-1:00:00", "12:00: 5", "4294967296:00:00", "+:00:00"] {
        let e = parse_messy_time(bad).unwrap_err();
        assert!(matches!(e, TimeParseError::InvalidNumber), "{}", bad);
        assert_eq!(e.message(), "Cannot parse u32");
    }
}

#[test]
fn out_of_range_minutes_and_seconds_are_refused() {
    let e = parse_messy_time("12:60:00").unwrap_err();
    assert!(matches!(
        e,
        TimeParseError::InvalidTime { hour: 12, minute: 60, second: 0 }
    ));
    assert_eq!(e.message(), "Could not assemble time from 12:60:0");
    let e = parse_messy_time("26:10:60").unwrap_err();
    assert_eq!(e.message(), "Could not assemble time from 2:10:60");
}

#[test]
fn clock_fields_do_not_check_ranges() {
    assert_eq!(parse_clock_fields("48:99:99").unwrap(), (0, 99, 99));
}
