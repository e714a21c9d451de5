use aerodrome_pools::calendar::{format_date, format_hour, is_leap_year};

#[test]
fn test_format_date() {
    assert_eq!(format_date(0), "1970-01-01");
    assert_eq!(format_date(1705276800), "2024-01-15");
    assert_eq!(format_date(1582934400), "2020-02-29");
}

#[test]
fn test_format_hour() {
    assert_eq!(format_hour(0), "1970-01-01-00");
    assert_eq!(format_hour(3600), "1970-01-01-01");
    assert_eq!(format_hour(86399), "1970-01-01-23");
}

#[test]
fn test_is_leap_year() {
    assert!(is_leap_year(2020));
    assert!(is_leap_year(2000));
    assert!(!is_leap_year(2100));
    assert!(!is_leap_year(2023));
}

#[test]
fn date_at_year_and_month_ends() {
    assert_eq!(format_date(951782400), "2000-02-29");
    assert_eq!(format_date(946684799), "1999-12-31");
    assert_eq!(format_date(4107542400), "2100-03-01");
    assert_eq!(format_date(4107456000), "2100-02-28");
}

#[test]
fn hour_within_a_later_day() {
    assert_eq!(format_hour(1705276800 + 13 * 3600 + 59), "2024-01-15-13");
}
