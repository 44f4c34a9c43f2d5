use exif_mtime::datetime::parse_datetime;
use exif_mtime::datetime::days_in_month;
use exif_mtime::datetime::is_leap_year;
use exif_mtime::datetime::DateTime;

#[test]
fn parses_a_plain_capture_date() {
    let dt = parse_datetime("2021:07:04 18:30:02").unwrap();
    assert_eq!(
        dt,
        DateTime { year: 2021, month: 7, day: 4, hour: 18, minute: 30, second: 2 }
    );
}

#[test]
fn parses_an_old_capture_date() {
    let dt = parse_datetime("1980:01:01 00:00:00").unwrap();
    assert_eq!(
        dt,
        DateTime { year: 1980, month: 1, day: 1, hour: 0, minute: 0, second: 0 }
    );
}

#[test]
fn rejects_wrong_delimiters() {
    assert_eq!(parse_datetime("2021-07-04"), None);
    assert_eq!(parse_datetime("2021-07-04 18:30:02"), None);
    assert_eq!(parse_datetime("2021:07:04T18:30:02"), None);
    assert_eq!(parse_datetime("2021:07:04 18-30-02"), None);
}

#[test]
fn rejects_wrong_length() {
    assert_eq!(parse_datetime(""), None);
    assert_eq!(parse_datetime("2021:07:04"), None);
    assert_eq!(parse_datetime("2021:07:04 18:30:0"), None);
    assert_eq!(parse_datetime("2021:07:04 18:30:021"), None);
}

#[test]
fn rejects_non_digits_in_fields() {
    assert_eq!(parse_datetime("20a1:07:04 18:30:02"), None);
    assert_eq!(parse_datetime("2021:o7:04 18:30:02"), None);
    assert_eq!(parse_datetime("2021:07:04 18:30: 2"), None);
}

#[test]
fn rejects_out_of_range_months_and_days() {
    assert_eq!(parse_datetime("2021:00:10 10:00:00"), None);
    assert_eq!(parse_datetime("2021:13:01 10:00:00"), None);
    assert_eq!(parse_datetime("2021:01:00 10:00:00"), None);
    assert_eq!(parse_datetime("2021:01:32 10:00:00"), None);
    assert_eq!(parse_datetime("2021:04:31 10:00:00"), None);
}

#[test]
fn rejects_out_of_range_times() {
    assert_eq!(parse_datetime("2021:07:04 24:00:00"), None);
    assert_eq!(parse_datetime("2021:07:04 18:60:00"), None);
    assert_eq!(parse_datetime("2021:07:04 18:30:60"), None);
}

#[test]
fn knows_leap_years() {
    assert!(parse_datetime("2020:02:29 10:00:00").is_some());
    assert_eq!(parse_datetime("2021:02:29 10:00:00"), None);
    assert_eq!(parse_datetime("1900:02:29 10:00:00"), None);
    assert!(parse_datetime("2000:02:29 10:00:00").is_some());
}

#[test]
fn month_lengths() {
    assert!(is_leap_year(2020));
    assert!(!is_leap_year(2021));
    assert!(!is_leap_year(1900));
    assert!(is_leap_year(2000));
    assert_eq!(days_in_month(2021, 1), 31);
    assert_eq!(days_in_month(2021, 2), 28);
    assert_eq!(days_in_month(2020, 2), 29);
    assert_eq!(days_in_month(2021, 4), 30);
    assert_eq!(days_in_month(2021, 12), 31);
}
