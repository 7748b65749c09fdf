use jupabot::duration::parse_duration;
use jupabot::ids::extract_id;
use jupabot::time::{is_leap, iso_8601, time_from_secs};

#[test]
fn epoch_is_first_of_january_1970() {
    assert_eq!(time_from_secs(0), "01.01.1970 00:00:00 UTC");
    assert_eq!(iso_8601(0), "1970-01-01T00:00:00Z");
}

#[test]
fn last_second_of_first_day() {
    assert_eq!(time_from_secs(86399), "01.01.1970 23:59:59 UTC");
    assert_eq!(iso_8601(86399), "1970-01-01T23:59:59Z");
}

#[test]
fn leap_day_of_2000() {
    assert_eq!(time_from_secs(951782400), "29.02.2000 00:00:00 UTC");
    assert_eq!(iso_8601(951782400), "2000-02-29T00:00:00Z");
}

#[test]
fn an_afternoon_in_2023() {
    assert_eq!(time_from_secs(1700000000), "14.11.2023 22:13:20 UTC");
    assert_eq!(iso_8601(1700000000), "2023-11-14T22:13:20Z");
}

#[test]
fn start_of_2100_which_is_not_leap() {
    assert_eq!(iso_8601(4102444800), "2100-01-01T00:00:00Z");
    assert_eq!(iso_8601(4102444800 + 59 * 86400), "2100-03-01T00:00:00Z");
}

#[test]
fn gregorian_leap_years() {
    assert!(is_leap(2000));
    assert!(is_leap(2024));
    assert!(!is_leap(1900));
    assert!(!is_leap(2023));
    assert!(!is_leap(2100));
}

#[test]
fn durations_with_units() {
    assert_eq!(parse_duration("10min"), Some(600));
    assert_eq!(parse_duration("10m"), Some(600));
    assert_eq!(parse_duration("2d"), Some(172800));
    assert_eq!(parse_duration("3hrs"), Some(10800));
    assert_eq!(parse_duration("45sec"), Some(45));
    assert_eq!(parse_duration("30"), Some(30));
}

#[test]
fn durations_rejected() {
    assert_eq!(parse_duration("5x"), None);
    assert_eq!(parse_duration(""), None);
    assert_eq!(parse_duration("min"), None);
    assert_eq!(parse_duration("99999999999999999999s"), None);
}

#[test]
fn duration_digits_anywhere() {
    assert_eq!(parse_duration("1m0"), Some(600));
}

#[test]
fn duration_product_wraps() {
    assert_eq!(parse_duration("18446744073709551615d"), Some(18446744073709465216));
}

#[test]
fn ids_from_mentions() {
    assert_eq!(extract_id("<@123>"), Some("123".to_string()));
    assert_eq!(extract_id("<@!123>"), Some("123".to_string()));
    assert_eq!(extract_id("<@&77>"), Some("77".to_string()));
    assert_eq!(extract_id("<@!!&&7>"), Some("7".to_string()));
    assert_eq!(extract_id("  456 "), Some("456".to_string()));
}

#[test]
fn ids_rejected() {
    assert_eq!(extract_id("<@abc>"), None);
    assert_eq!(extract_id("<@>"), None);
    assert_eq!(extract_id("abc"), None);
    assert_eq!(extract_id(""), None);
    assert_eq!(extract_id("<#123>"), None);
    assert_eq!(extract_id("<@12 3>"), None);
}

#[test]
fn one_day_later_is_the_next_calendar_day() {
    // 2000-02-28 12:34:56, then the leap day, then March 1st
    assert_eq!(iso_8601(951741296), "2000-02-28T12:34:56Z");
    assert_eq!(iso_8601(951741296 + 86400), "2000-02-29T12:34:56Z");
    assert_eq!(iso_8601(951741296 + 2 * 86400), "2000-03-01T12:34:56Z");
    // 2023-12-31 to 2024-01-01
    assert_eq!(iso_8601(1704024000), "2023-12-31T12:00:00Z");
    assert_eq!(iso_8601(1704024000 + 86400), "2024-01-01T12:00:00Z");
}

#[test]
fn both_formats_agree() {
    assert_eq!(iso_8601(1700000000), "2023-11-14T22:13:20Z");
    assert_eq!(time_from_secs(1700000000), "14.11.2023 22:13:20 UTC");
}

#[test]
fn different_times_print_differently() {
    assert_ne!(iso_8601(0), iso_8601(1));
    assert_ne!(iso_8601(86399), iso_8601(86400));
}

#[test]
fn later_times_print_later() {
    assert!(iso_8601(951741296) < iso_8601(951741297));
    assert!(iso_8601(1704023999) < iso_8601(1704067200));
    assert!(iso_8601(0) < iso_8601(253402300799));
    assert_eq!(iso_8601(253402300799), "9999-12-31T23:59:59Z");
    assert_eq!(iso_8601(253402300799).len(), 20);
}
