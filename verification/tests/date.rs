use alex_fetcher::date::int_string;
use alex_fetcher::date::Date;
use chrono::Datelike;
use chrono::NaiveDate;

fn date(year: i32, month: u32, day: u32) -> Date {
    Date::new(year, month, day).unwrap()
}

#[test]
fn new_takes_the_days_of_the_calendar() {
    assert!(Date::new(2015, 3, 14).is_some());
    assert!(Date::new(2015, 0, 14).is_none());
    assert!(Date::new(2015, 13, 1).is_none());
    assert!(Date::new(2015, 1, 0).is_none());
    assert!(Date::new(2015, 2, 29).is_none());
    assert!(Date::new(2016, 2, 29).is_some());
    assert!(Date::new(1900, 2, 29).is_none());
    assert!(Date::new(2000, 2, 29).is_some());
    assert!(Date::new(-4, 2, 29).is_some());
    assert!(Date::new(2023, 4, 31).is_none());
    assert!(Date::new(2023, 4, 30).is_some());
    assert!(Date::new(2023, 12, 31).is_some());
    assert!(Date::new(2023, 12, 32).is_none());
}

#[test]
fn new_knows_the_first_and_the_last_year() {
    assert!(Date::new(262142, 12, 31).is_some());
    assert!(Date::new(262143, 1, 1).is_none());
    assert!(Date::new(-262143, 1, 1).is_some());
    assert!(Date::new(-262144, 12, 31).is_none());
    assert!(Date::new(400000, 1, 1).is_none());
    assert!(Date::new(-400000, 1, 1).is_none());
}

#[test]
fn new_agrees_with_chrono() {
    let years = [-262144, -262143, -401, -400, -100, -4, -1, 0, 1, 4, 100, 1900, 2000, 2019, 2020,
        9999, 10000, 262142, 262143];
    for &year in years.iter() {
        for month in 0..14u32 {
            for day in 0..33u32 {
                let ours = Date::new(year, month, day);
                let theirs = NaiveDate::from_ymd_opt(year, month, day);
                assert_eq!(ours.is_some(), theirs.is_some(), "{} {} {}", year, month, day);
                if let (Some(a), Some(b)) = (ours, theirs) {
                    assert_eq!((a.year(), a.month(), a.day()), (b.year(), b.month(), b.day()));
                }
            }
        }
    }
}

#[test]
fn getters_give_back_what_went_in() {
    let d = date(2019, 3, 5);
    assert_eq!(d.year(), 2019);
    assert_eq!(d.month(), 3);
    assert_eq!(d.day(), 5);
    assert_eq!(d, date(2019, 3, 5));
    assert_ne!(d, date(2019, 3, 6));
}

#[test]
fn year_string_has_four_digits() {
    assert_eq!(date(2019, 3, 5).year_string(), "2019");
    assert_eq!(date(1000, 1, 1).year_string(), "1000");
    assert_eq!(date(9999, 12, 31).year_string(), "9999");
    assert_eq!(date(999, 1, 1).year_string(), "0999");
    assert_eq!(date(7, 1, 1).year_string(), "0007");
    assert_eq!(date(0, 1, 1).year_string(), "0000");
}

#[test]
fn year_string_has_a_sign_outside_four_digits() {
    assert_eq!(date(-1, 1, 1).year_string(), "-0001");
    assert_eq!(date(-999, 1, 1).year_string(), "-0999");
    assert_eq!(date(-12345, 1, 1).year_string(), "-12345");
    assert_eq!(date(10000, 1, 1).year_string(), "+10000");
    assert_eq!(date(262142, 12, 31).year_string(), "+262142");
    assert_eq!(date(-262143, 1, 1).year_string(), "-262143");
}

#[test]
fn to_string_puts_the_year_first() {
    assert_eq!(date(2015, 9, 5).to_string(), "2015-09-05");
    assert_eq!(date(2019, 12, 31).to_string(), "2019-12-31");
    assert_eq!(date(-1, 2, 3).to_string(), "-0001-02-03");
    assert_eq!(date(10000, 10, 10).to_string(), "+10000-10-10");
}

#[test]
fn parse_reads_a_date_in_words() {
    let d = Date::parse_from_str("Tuesday, 5 March 2019", "%A, %-d %B %Y");
    assert_eq!(d, Some(date(2019, 3, 5)));
    let d = Date::parse_from_str("Saturday, 29 February 2020", "%A, %-d %B %Y");
    assert_eq!(d, Some(date(2020, 2, 29)));
    let d = Date::parse_from_str("2015-09-05", "%Y-%m-%d");
    assert_eq!(d, Some(date(2015, 9, 5)));
}

#[test]
fn parse_refuses_what_is_no_date() {
    assert_eq!(Date::parse_from_str("", "%A, %-d %B %Y"), None);
    assert_eq!(Date::parse_from_str("soon", "%A, %-d %B %Y"), None);
    assert_eq!(Date::parse_from_str("Monday, 5 March 2019", "%A, %-d %B %Y"), None);
    assert_eq!(Date::parse_from_str("Tuesday, 31 February 2019", "%A, %-d %B %Y"), None);
    assert_eq!(Date::parse_from_str("2015/9", "%Y/%m"), None);
    assert_eq!(Date::parse_from_str("2015-09-05", "%Q"), None);
}

#[test]
fn from_parsed_checks_the_day() {
    assert_eq!(Date::from_parsed(Some((2019, 3, 5))), Some(date(2019, 3, 5)));
    assert_eq!(Date::from_parsed(Some((2019, 2, 29))), None);
    assert_eq!(Date::from_parsed(Some((2019, 13, 1))), None);
    assert_eq!(Date::from_parsed(None), None);
}

#[test]
fn int_string_is_decimal() {
    let values = [0, 1, 9, 10, 11, 99, 100, 101, 7999, 8000, 65535, 1000000, i32::MAX, -1, -9, -10, -100, -7999, i32::MIN + 1, i32::MIN];
    for &n in values.iter() {
        assert_eq!(int_string(n), format!("{}", n));
    }
    for n in -1200..1200 {
        assert_eq!(int_string(n), format!("{}", n));
    }
}
