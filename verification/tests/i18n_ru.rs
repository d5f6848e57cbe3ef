use date_parsers::date::{Date, Weekday};
use date_parsers::error::Error;
use date_parsers::i18n::ru::{
    bundle_on, current_named_weekday_only_on, day_after_tomorrow_on, day_before_yesterday_on,
    full_named_weekday, named_weekday, short_named_weekday, short_named_weekday_dot, today_on,
    tomorrow_on, yesterday_on,
};

fn date(y: i32, m: u32, d: u32) -> Date {
    Date::from_ymd_opt(y, m, d).unwrap()
}

// 16 July 2024 was a Tuesday.
fn today_fixed() -> Date {
    date(2024, 7, 16)
}

#[test]
fn short_weekday_names_ru() {
    assert_eq!(short_named_weekday("пн"), Ok(("", Weekday::Mon)));
    assert_eq!(short_named_weekday("ВТ"), Ok(("", Weekday::Tue)));
    assert_eq!(short_named_weekday("Ср"), Ok(("", Weekday::Wed)));
    assert_eq!(short_named_weekday("пт"), Ok(("", Weekday::Fri)));
}

#[test]
fn short_weekday_names_with_dot_ru() {
    assert_eq!(short_named_weekday_dot("пн."), Ok(("", Weekday::Mon)));
    assert_eq!(short_named_weekday_dot("ВТ."), Ok(("", Weekday::Tue)));
    assert_eq!(short_named_weekday_dot("Ср."), Ok(("", Weekday::Wed)));
}

#[test]
fn full_weekday_names_ru() {
    assert_eq!(full_named_weekday("понедельник"), Ok(("", Weekday::Mon)));
    assert_eq!(full_named_weekday("Вторник"), Ok(("", Weekday::Tue)));
    assert_eq!(full_named_weekday("СРЕДА"), Ok(("", Weekday::Wed)));
    assert_eq!(full_named_weekday("воскресенье"), Ok(("", Weekday::Sun)));
}

#[test]
fn named_weekday_ru() {
    assert_eq!(named_weekday("пн"), Ok(("", Weekday::Mon)));
    assert_eq!(named_weekday("вторник"), Ok(("", Weekday::Tue)));
    assert_eq!(named_weekday("Пятница"), Ok(("", Weekday::Fri)));
}

#[test]
fn relative_words_ru() {
    let today = today_fixed();
    assert_eq!(day_before_yesterday_on("позавчера", today), Ok(("", date(2024, 7, 14))));
    assert_eq!(day_before_yesterday_on("Позавчера", today), Ok(("", date(2024, 7, 14))));
    assert_eq!(yesterday_on("Вчера", today), Ok(("", date(2024, 7, 15))));
    assert_eq!(today_on("Сегодня", today), Ok(("", date(2024, 7, 16))));
    assert_eq!(tomorrow_on("Завтра", today), Ok(("", date(2024, 7, 17))));
    assert_eq!(day_after_tomorrow_on("послезавтра", today), Ok(("", date(2024, 7, 18))));
    assert_eq!(yesterday_on("сегодня", today), Err(Error::NoMatch("сегодня")));
}

#[test]
fn weekday_recognizer_completes_to_a_date_ru() {
    let today = today_fixed();
    assert_eq!(
        current_named_weekday_only_on("Среда", today, Weekday::Tue),
        Ok(("", date(2024, 7, 17)))
    );
    assert_eq!(
        current_named_weekday_only_on("пн", today, Weekday::Tue),
        Ok(("", date(2024, 7, 15)))
    );
}

#[test]
fn bundle_ru_tries_most_specific_first() {
    let today = today_fixed();
    let wd = Weekday::Tue;
    assert_eq!(bundle_on("1", today, wd), Ok(("", date(2024, 7, 1))));
    assert_eq!(bundle_on("09", today, wd), Ok(("", date(2024, 7, 9))));
    assert_eq!(bundle_on("03/12", today, wd), Ok(("", date(2024, 12, 3))));
    assert_eq!(bundle_on("13    06\t2024", today, wd), Ok(("", date(2024, 6, 13))));
    assert_eq!(bundle_on("позавчера", today, wd), Ok(("", date(2024, 7, 14))));
    assert_eq!(bundle_on("Вчера", today, wd), Ok(("", date(2024, 7, 15))));
    assert_eq!(bundle_on("Завтра", today, wd), Ok(("", date(2024, 7, 17))));
    assert_eq!(bundle_on("послезавтра", today, wd), Ok(("", date(2024, 7, 18))));
    assert_eq!(bundle_on("среда", today, wd), Ok(("", date(2024, 7, 17))));
}
