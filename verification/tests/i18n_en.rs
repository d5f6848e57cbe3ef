use chrono::Datelike;

use date_parsers::date::{Date, Weekday};
use date_parsers::error::Error;
use date_parsers::i18n::en::{
    bundle_dmy, bundle_dmy_on, bundle_mdy_on, current_named_weekday_only_on, full_named_weekday,
    named_weekday, short_named_weekday, short_named_weekday_dot, tomorrow, tomorrow_on, yesterday,
    yesterday_on,
};
use date_parsers::i18n::{naive_date_for_weekday, naive_date_for_weekday_on};

fn date(y: i32, m: u32, d: u32) -> Date {
    Date::from_ymd_opt(y, m, d).unwrap()
}

// 16 July 2024 was a Tuesday.
fn today_fixed() -> Date {
    date(2024, 7, 16)
}

#[test]
fn short_weekday_names() {
    assert_eq!(short_named_weekday("mon"), Ok(("", Weekday::Mon)));
    assert_eq!(short_named_weekday("tue"), Ok(("", Weekday::Tue)));
    assert_eq!(short_named_weekday("Wed"), Ok(("", Weekday::Wed)));
    assert_eq!(short_named_weekday("SUN"), Ok(("", Weekday::Sun)));
    assert_eq!(short_named_weekday("xyz"), Err(Error::NoMatch("xyz")));
}

#[test]
fn short_weekday_names_with_dot() {
    assert_eq!(short_named_weekday_dot("mon."), Ok(("", Weekday::Mon)));
    assert_eq!(short_named_weekday_dot("TUE."), Ok(("", Weekday::Tue)));
    assert_eq!(short_named_weekday_dot("Wed."), Ok(("", Weekday::Wed)));
    assert_eq!(short_named_weekday_dot("wed"), Err(Error::NoMatch("")));
}

#[test]
fn full_weekday_names() {
    assert_eq!(full_named_weekday("monday"), Ok(("", Weekday::Mon)));
    assert_eq!(full_named_weekday("Tuesday"), Ok(("", Weekday::Tue)));
    assert_eq!(full_named_weekday("Wednesday"), Ok(("", Weekday::Wed)));
}

#[test]
fn named_weekday_prefers_full_names() {
    assert_eq!(named_weekday("mon"), Ok(("", Weekday::Mon)));
    assert_eq!(named_weekday("Tuesday"), Ok(("", Weekday::Tue)));
    assert_eq!(named_weekday("friday"), Ok(("", Weekday::Fri)));
    assert_eq!(named_weekday("Fri"), Ok(("", Weekday::Fri)));
}

#[test]
fn weekday_in_current_week_never_wraps() {
    // 18 July 2024 was a Thursday: Monday of that week is three days
    // back, Saturday two days forward.
    let thursday = date(2024, 7, 18);
    assert_eq!(
        naive_date_for_weekday_on(thursday, Weekday::Thu, Weekday::Mon),
        date(2024, 7, 15)
    );
    assert_eq!(
        naive_date_for_weekday_on(thursday, Weekday::Thu, Weekday::Sat),
        date(2024, 7, 20)
    );
    assert_eq!(
        naive_date_for_weekday_on(thursday, Weekday::Thu, Weekday::Thu),
        thursday
    );
}

#[test]
fn weekday_date_from_the_clock_stays_in_week() {
    let now = chrono::Local::now().date_naive();
    let monday = naive_date_for_weekday(Weekday::Mon);
    let expected = now
        .checked_add_signed(chrono::TimeDelta::try_days(
            -(now.weekday().num_days_from_monday() as i64),
        ).unwrap())
        .unwrap();
    assert_eq!(
        (monday.year(), monday.month(), monday.day()),
        (expected.year(), expected.month(), expected.day())
    );
}

#[test]
fn relative_words_shift_by_one_day() {
    assert_eq!(yesterday_on("Yesterday", today_fixed()), Ok(("", date(2024, 7, 15))));
    assert_eq!(tomorrow_on("tomorrow", today_fixed()), Ok(("", date(2024, 7, 17))));
    assert_eq!(yesterday_on("today", today_fixed()), Err(Error::NoMatch("today")));
}

#[test]
fn relative_words_from_the_clock() {
    let now = chrono::Local::now().date_naive();
    let y = yesterday("Yesterday").unwrap().1;
    let t = tomorrow("Tomorrow").unwrap().1;
    let ny = now.checked_sub_days(chrono::Days::new(1)).unwrap();
    let nt = now.checked_add_days(chrono::Days::new(1)).unwrap();
    assert_eq!((y.year(), y.month(), y.day()), (ny.year(), ny.month(), ny.day()));
    assert_eq!((t.year(), t.month(), t.day()), (nt.year(), nt.month(), nt.day()));
}

#[test]
fn bundle_dmy_tries_most_specific_first() {
    let today = today_fixed();
    let wd = Weekday::Tue;
    assert_eq!(bundle_dmy_on("09", today, wd), Ok(("", date(2024, 7, 9))));
    assert_eq!(bundle_dmy_on("10", today, wd), Ok(("", date(2024, 7, 10))));
    assert_eq!(bundle_dmy_on("03/12", today, wd), Ok(("", date(2024, 12, 3))));
    assert_eq!(bundle_dmy_on("13    06\t2024", today, wd), Ok(("", date(2024, 6, 13))));
    assert_eq!(bundle_dmy_on("Yesterday", today, wd), Ok(("", date(2024, 7, 15))));
    assert_eq!(bundle_dmy_on("Tomorrow", today, wd), Ok(("", date(2024, 7, 17))));
    assert_eq!(bundle_dmy_on("Wednesday", today, wd), Ok(("", date(2024, 7, 17))));
}

#[test]
fn bundle_dmy_falls_through_on_absent_dates() {
    // The full composite parses 31-02-2024 to an absent date, so the
    // bundle moves on: day-month sees Feb 31 (absent again), and
    // day-only finally accepts 31 July.
    let today = today_fixed();
    assert_eq!(
        bundle_dmy_on("31-02-2024", today, Weekday::Tue),
        Ok(("-02-2024", date(2024, 7, 31)))
    );
}

#[test]
fn bundle_dmy_reports_the_last_failure() {
    let today = today_fixed();
    assert_eq!(bundle_dmy_on("42", today, Weekday::Tue), Err(Error::NoMatch("42")));
}

#[test]
fn bundle_mdy_swaps_the_fields() {
    let today = today_fixed();
    let wd = Weekday::Tue;
    assert_eq!(bundle_mdy_on("09", today, wd), Ok(("", date(2024, 7, 9))));
    assert_eq!(bundle_mdy_on("12/03", today, wd), Ok(("", date(2024, 12, 3))));
    assert_eq!(bundle_mdy_on("06    13\t2024", today, wd), Ok(("", date(2024, 6, 13))));
    assert_eq!(bundle_mdy_on("Yesterday", today, wd), Ok(("", date(2024, 7, 15))));
}

#[test]
fn bundle_dmy_from_the_clock() {
    let now = chrono::Local::now().date_naive();
    let d = bundle_dmy("13    06\t2024").unwrap().1;
    assert_eq!((d.year(), d.month(), d.day()), (2024, 6, 13));
    let y = bundle_dmy("Yesterday").unwrap().1;
    let ny = now.checked_sub_days(chrono::Days::new(1)).unwrap();
    assert_eq!((y.year(), y.month(), y.day()), (ny.year(), ny.month(), ny.day()));
}

#[test]
fn weekday_recognizer_completes_to_a_date() {
    let today = today_fixed();
    assert_eq!(
        current_named_weekday_only_on("Wednesday", today, Weekday::Tue),
        Ok(("", date(2024, 7, 17)))
    );
    assert_eq!(
        current_named_weekday_only_on("mon.", today, Weekday::Tue),
        Ok(("", date(2024, 7, 15)))
    );
}
