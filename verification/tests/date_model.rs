use date_parsers::date::{Date, Weekday};

fn date(y: i32, m: u32, d: u32) -> Date {
    Date::from_ymd_opt(y, m, d).unwrap()
}

#[test]
fn leap_years_are_honoured() {
    assert!(Date::from_ymd_opt(2024, 2, 29).is_some());
    assert!(Date::from_ymd_opt(2023, 2, 29).is_none());
    assert!(Date::from_ymd_opt(2000, 2, 29).is_some());
    assert!(Date::from_ymd_opt(1900, 2, 29).is_none());
}

#[test]
fn month_lengths_are_honoured() {
    assert!(Date::from_ymd_opt(2024, 4, 31).is_none());
    assert!(Date::from_ymd_opt(2024, 4, 30).is_some());
    assert!(Date::from_ymd_opt(2024, 1, 31).is_some());
    assert!(Date::from_ymd_opt(2024, 0, 1).is_none());
    assert!(Date::from_ymd_opt(2024, 13, 1).is_none());
    assert!(Date::from_ymd_opt(2024, 6, 0).is_none());
}

#[test]
fn accessors_return_the_constructed_parts() {
    let dt = date(2024, 7, 16);
    assert_eq!((dt.year(), dt.month(), dt.day()), (2024, 7, 16));
}

#[test]
fn shifting_crosses_month_and_year_boundaries() {
    assert_eq!(date(2024, 3, 1).shift_days(-1), date(2024, 2, 29));
    assert_eq!(date(2023, 3, 1).shift_days(-1), date(2023, 2, 28));
    assert_eq!(date(2024, 12, 31).shift_days(1), date(2025, 1, 1));
    assert_eq!(date(2024, 7, 16).shift_days(0), date(2024, 7, 16));
    assert_eq!(date(2024, 7, 16).shift_days(-6), date(2024, 7, 10));
    assert_eq!(date(2024, 7, 16).shift_days(6), date(2024, 7, 22));
}

#[test]
fn weekday_ordinals_are_monday_based() {
    assert_eq!(Weekday::Mon.ord(), 0);
    assert_eq!(Weekday::Thu.ord(), 3);
    assert_eq!(Weekday::Sun.ord(), 6);
    assert_eq!(Weekday::from_ord(2), Weekday::Wed);
}
