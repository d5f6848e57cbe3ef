use chrono::Datelike;

use date_parsers::date::Date;
use date_parsers::error::Error;
use date_parsers::numeric::{
    dd, dd_mm, dd_mm_only, dd_mm_only_on, dd_mm_y4, dd_only, dd_only_on, mm, mm_dd, mm_dd_only_on,
    mm_dd_y4, numeric_date_parts_separator, y4, y4_mm_dd,
};

fn date(y: i32, m: u32, d: u32) -> Date {
    Date::from_ymd_opt(y, m, d).unwrap()
}

fn today_fixed() -> Date {
    date(2024, 7, 16)
}

fn now_ymd() -> (i32, u32, u32) {
    let now = chrono::Local::now().date_naive();
    (now.year(), now.month(), now.day())
}

#[test]
fn dd_accepts_one_digit() {
    assert_eq!(dd("9"), Ok(("", 9)));
}

#[test]
fn dd_accepts_leading_zero() {
    assert_eq!(dd("09"), Ok(("", 9)));
}

#[test]
fn dd_accepts_upper_bound() {
    assert_eq!(dd("31"), Ok(("", 31)));
}

#[test]
fn dd_rejects_zero() {
    assert_eq!(dd("00"), Err(Error::DayOutOfRange));
}

#[test]
fn dd_rejects_too_large() {
    assert_eq!(dd("42"), Err(Error::DayOutOfRange));
}

#[test]
fn dd_prefers_two_digits_and_leaves_rest() {
    assert_eq!(dd("130"), Ok(("0", 13)));
    assert_eq!(dd("13/07"), Ok(("/07", 13)));
    assert_eq!(dd("9a"), Ok(("a", 9)));
}

#[test]
fn dd_rejects_empty_and_non_digits() {
    assert_eq!(dd(""), Err(Error::NoMatch("")));
    assert_eq!(dd("xy"), Err(Error::ParseInt("xy")));
    assert_eq!(dd("+10"), Err(Error::ParseInt("+10")));
}

#[test]
fn mm_accepts_range() {
    assert_eq!(mm("9"), Ok(("", 9)));
    assert_eq!(mm("09"), Ok(("", 9)));
    assert_eq!(mm("12"), Ok(("", 12)));
}

#[test]
fn mm_rejects_out_of_range() {
    assert_eq!(mm("00"), Err(Error::MonthOutOfRange));
    assert_eq!(mm("13"), Err(Error::MonthOutOfRange));
}

#[test]
fn y4_reads_exactly_four_digits() {
    assert_eq!(y4("0042"), Ok(("", 42)));
    assert_eq!(y4("2024"), Ok(("", 2024)));
    assert_eq!(y4("10001"), Ok(("1", 1000)));
}

#[test]
fn y4_rejects_short_and_non_digit_input() {
    assert_eq!(y4("42"), Err(Error::NoMatch("42")));
    assert_eq!(y4("20x4"), Err(Error::ParseInt("20x4")));
}

#[test]
fn separator_accepts_each_form() {
    assert_eq!(numeric_date_parts_separator("/r"), Ok(("r", ())));
    assert_eq!(numeric_date_parts_separator("-r"), Ok(("r", ())));
    assert_eq!(numeric_date_parts_separator(".r"), Ok(("r", ())));
    assert_eq!(numeric_date_parts_separator("  \t r"), Ok(("r", ())));
}

#[test]
fn separator_rejects_anything_else() {
    assert_eq!(numeric_date_parts_separator("r"), Err(Error::NoMatch("r")));
    assert_eq!(numeric_date_parts_separator(""), Err(Error::NoMatch("")));
}

#[test]
fn dd_mm_reads_pair() {
    assert_eq!(dd_mm("3/9"), Ok(("", (3, 9))));
    assert_eq!(dd_mm("13\t13"), Err(Error::MonthOutOfRange));
}

#[test]
fn mm_dd_reads_pair() {
    assert_eq!(mm_dd("9/3"), Ok(("", (9, 3))));
    assert_eq!(mm_dd("13\t13"), Err(Error::MonthOutOfRange));
}

#[test]
fn dd_only_on_completes_with_current_month() {
    assert_eq!(dd_only_on("13", today_fixed()), Ok(("", Some(date(2024, 7, 13)))));
    assert_eq!(dd_only_on("42", today_fixed()), Err(Error::DayOutOfRange));
}

#[test]
fn dd_only_on_reports_absence() {
    // 31 July exists, 31 June does not.
    assert_eq!(dd_only_on("31", date(2024, 6, 16)), Ok(("", None)));
    assert_eq!(dd_only_on("31", today_fixed()), Ok(("", Some(date(2024, 7, 31)))));
}

#[test]
fn dd_only_uses_the_local_clock() {
    let (y, m, _) = now_ymd();
    let expected = Date::from_ymd_opt(y, m, 13);
    assert_eq!(dd_only("13"), Ok(("", expected)));
    assert_eq!(dd_only("42"), Err(Error::DayOutOfRange));
}

#[test]
fn dd_mm_only_on_completes_with_current_year() {
    assert_eq!(dd_mm_only_on("3/9", today_fixed()), Ok(("", Some(date(2024, 9, 3)))));
    assert_eq!(dd_mm_only_on("03-09", today_fixed()), Ok(("", Some(date(2024, 9, 3)))));
    assert_eq!(dd_mm_only_on("03/12", today_fixed()), Ok(("", Some(date(2024, 12, 3)))));
    assert_eq!(dd_mm_only_on("00", today_fixed()), Err(Error::DayOutOfRange));
    assert_eq!(dd_mm_only_on("13.00", today_fixed()), Err(Error::MonthOutOfRange));
    assert_eq!(dd_mm_only_on("13\t13", today_fixed()), Err(Error::MonthOutOfRange));
}

#[test]
fn dd_mm_only_uses_the_local_clock() {
    let (y, _, _) = now_ymd();
    assert_eq!(dd_mm_only("18-10"), Ok(("", Date::from_ymd_opt(y, 10, 18))));
}

#[test]
fn mm_dd_only_on_swaps_the_fields() {
    assert_eq!(mm_dd_only_on("10/18", today_fixed()), Ok(("", Some(date(2024, 10, 18)))));
    assert_eq!(mm_dd_only_on("18/10", today_fixed()), Err(Error::MonthOutOfRange));
}

#[test]
fn y4_mm_dd_reads_full_date() {
    assert_eq!(y4_mm_dd("2024-06-13"), Ok(("", Some(date(2024, 6, 13)))));
    assert_eq!(y4_mm_dd("2024/06-13"), Ok(("", Some(date(2024, 6, 13)))));
    assert_eq!(y4_mm_dd("2024.06.13"), Ok(("", Some(date(2024, 6, 13)))));
    assert_eq!(y4_mm_dd("2024    06\t13"), Ok(("", Some(date(2024, 6, 13)))));
}

#[test]
fn y4_mm_dd_field_range_failures() {
    assert_eq!(y4_mm_dd("2024/00/06"), Err(Error::MonthOutOfRange));
    assert_eq!(y4_mm_dd("2024/13/06"), Err(Error::MonthOutOfRange));
    assert_eq!(y4_mm_dd("2024/10/00"), Err(Error::DayOutOfRange));
    assert_eq!(y4_mm_dd("2024/10/42"), Err(Error::DayOutOfRange));
}

#[test]
fn dd_mm_y4_reads_full_date_with_any_separator() {
    assert_eq!(dd_mm_y4("13-06-2024"), Ok(("", Some(date(2024, 6, 13)))));
    assert_eq!(dd_mm_y4("13/06-2024"), Ok(("", Some(date(2024, 6, 13)))));
    assert_eq!(dd_mm_y4("13/06/2024"), Ok(("", Some(date(2024, 6, 13)))));
    assert_eq!(dd_mm_y4("13.06.2024"), Ok(("", Some(date(2024, 6, 13)))));
    assert_eq!(dd_mm_y4("13    06\t2024"), Ok(("", Some(date(2024, 6, 13)))));
}

#[test]
fn dd_mm_y4_field_range_failures() {
    assert_eq!(dd_mm_y4("00/10/2024"), Err(Error::DayOutOfRange));
    assert_eq!(dd_mm_y4("42/10/2024"), Err(Error::DayOutOfRange));
    assert_eq!(dd_mm_y4("06/00/2024"), Err(Error::MonthOutOfRange));
    assert_eq!(dd_mm_y4("06/13/2024"), Err(Error::MonthOutOfRange));
}

#[test]
fn mm_dd_y4_reads_full_date() {
    assert_eq!(mm_dd_y4("06-13-2024"), Ok(("", Some(date(2024, 6, 13)))));
    assert_eq!(mm_dd_y4("06/13-2024"), Ok(("", Some(date(2024, 6, 13)))));
    assert_eq!(mm_dd_y4("06.13.2024"), Ok(("", Some(date(2024, 6, 13)))));
    assert_eq!(mm_dd_y4("06    13\t2024"), Ok(("", Some(date(2024, 6, 13)))));
}

#[test]
fn mm_dd_y4_field_range_failures() {
    assert_eq!(mm_dd_y4("00/06/2024"), Err(Error::MonthOutOfRange));
    assert_eq!(mm_dd_y4("13/06/2024"), Err(Error::MonthOutOfRange));
    assert_eq!(mm_dd_y4("10/00/2024"), Err(Error::DayOutOfRange));
    assert_eq!(mm_dd_y4("10/32/2024"), Err(Error::DayOutOfRange));
}

#[test]
fn calendar_existence_is_not_a_parse_error() {
    // An impossible calendar date parses as an absent date, while a day
    // outside the field range is a hard failure.
    assert_eq!(dd_mm_y4("31-02-2024"), Ok(("", None)));
    assert_eq!(dd_mm_y4("32-02-2024"), Err(Error::DayOutOfRange));
}

#[test]
fn dd_two_digit_figures_exhaustively() {
    for d in 0..100u32 {
        let s = format!("{d:02}");
        if (1..=31).contains(&d) {
            assert_eq!(dd(&s), Ok(("", d)));
        } else {
            assert_eq!(dd(&s), Err(Error::DayOutOfRange));
        }
    }
}

#[test]
fn dd_one_digit_figures_exhaustively() {
    for d in 0..10u32 {
        let s = format!("{d}");
        if d >= 1 {
            assert_eq!(dd(&s), Ok(("", d)));
        } else {
            assert_eq!(dd(&s), Err(Error::DayOutOfRange));
        }
    }
}

#[test]
fn mm_two_digit_figures_exhaustively() {
    for m in 0..100u32 {
        let s = format!("{m:02}");
        if (1..=12).contains(&m) {
            assert_eq!(mm(&s), Ok(("", m)));
        } else {
            assert_eq!(mm(&s), Err(Error::MonthOutOfRange));
        }
    }
}

#[test]
fn every_separator_yields_the_same_date() {
    let seps = ["/", "-", ".", " ", "   ", "\t", " \t "];
    for a in seps {
        for b in seps {
            let s = format!("13{a}06{b}2024");
            assert_eq!(dd_mm_y4(&s), Ok(("", Some(date(2024, 6, 13)))), "input {s:?}");
            let s = format!("2024{a}06{b}13");
            assert_eq!(y4_mm_dd(&s), Ok(("", Some(date(2024, 6, 13)))), "input {s:?}");
            let s = format!("06{a}13{b}2024");
            assert_eq!(mm_dd_y4(&s), Ok(("", Some(date(2024, 6, 13)))), "input {s:?}");
        }
        let s = format!("13{a}06");
        assert_eq!(
            dd_mm_only_on(&s, today_fixed()),
            Ok(("", Some(date(2024, 6, 13)))),
            "input {s:?}"
        );
    }
}

#[test]
fn fields_recognized_independently_round_trip() {
    let (rest_y, y) = y4("2024").unwrap();
    let (rest_m, m) = mm("06").unwrap();
    let (rest_d, d) = dd("13").unwrap();
    assert_eq!((rest_y, rest_m, rest_d), ("", "", ""));
    let dt = Date::from_ymd_opt(y as i32, m, d).unwrap();
    assert_eq!((dt.year(), dt.month(), dt.day()), (2024, 6, 13));
}
