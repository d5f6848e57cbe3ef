//! Russian relative-day words, from two days back to two days forward.

use vstd::prelude::*;

use crate::clock;
use crate::date::Date;
use crate::date::Ymd;
use crate::date::valid_ymd;
use crate::date::year_in_step_range;
use crate::error::Error;
use crate::error::IResult;
use crate::i18n::relative_word;
use crate::i18n::relative_word_outcome;
use crate::scan::Outcome;
use crate::scan::res_matches_date;
use crate::scan::tag_ci_matches;

verus! {

/// Outcome of the word for the day before yesterday: two days before
/// `today`.
pub open spec fn day_before_yesterday_outcome(s: Seq<char>, today: Ymd) -> Outcome<Ymd> {
    relative_word_outcome(s, "позавчера"@, "ПОЗАВЧЕРА"@, -2, today)
}

/// Outcome of the word for yesterday: the day before `today`.
pub open spec fn yesterday_outcome(s: Seq<char>, today: Ymd) -> Outcome<Ymd> {
    relative_word_outcome(s, "вчера"@, "ВЧЕРА"@, -1, today)
}

/// Outcome of the word for today: `today` itself.
pub open spec fn today_outcome(s: Seq<char>, today: Ymd) -> Outcome<Ymd> {
    relative_word_outcome(s, "сегодня"@, "СЕГОДНЯ"@, 0, today)
}

/// Outcome of the word for tomorrow: the day after `today`.
pub open spec fn tomorrow_outcome(s: Seq<char>, today: Ymd) -> Outcome<Ymd> {
    relative_word_outcome(s, "завтра"@, "ЗАВТРА"@, 1, today)
}

/// Outcome of the word for the day after tomorrow: two days after
/// `today`.
pub open spec fn day_after_tomorrow_outcome(s: Seq<char>, today: Ymd) -> Outcome<Ymd> {
    relative_word_outcome(s, "послезавтра"@, "ПОСЛЕЗАВТРА"@, 2, today)
}

/// Recognizes the case-insensitive Russian word for the day before
/// yesterday and returns `today` minus two days.
pub fn day_before_yesterday_on<'a>(input: &'a str, today: Date) -> (r: IResult<'a, Date>)
    requires
        today.valid(),
        year_in_step_range(today@.y),
    ensures
        res_matches_date(input@, r, day_before_yesterday_outcome(input@, today@)),
{
    proof {
        reveal_strlit("позавчера");
        reveal_strlit("ПОЗАВЧЕРА");
    }
    relative_word(input, "позавчера", "ПОЗАВЧЕРА", -2, today)
}

/// Recognizes the case-insensitive Russian word for the day before
/// yesterday and returns the current local date minus two days.
pub fn day_before_yesterday<'a>(input: &'a str) -> (r: IResult<'a, Date>)
    ensures
        exists|t: Ymd|
            valid_ymd(t) && year_in_step_range(t.y) && res_matches_date(
                input@,
                r,
                day_before_yesterday_outcome(input@, t),
            ),
        r matches Ok((rem, dt)) ==> tag_ci_matches(input@, "позавчера"@, "ПОЗАВЧЕРА"@) && rem@
            == input@.skip("позавчера"@.len() as int) && dt.valid(),
        r matches Err(e) ==> !tag_ci_matches(input@, "позавчера"@, "ПОЗАВЧЕРА"@) && (
        e matches Error::NoMatch(rest) && rest@ == input@),
{
    let (today, _wd) = clock::current_date();
    let r = day_before_yesterday_on(input, today);
    proof {
        assert(input@.skip(0) =~= input@);
        assert(valid_ymd(today@) && year_in_step_range(today@.y) && res_matches_date(
            input@,
            r,
            day_before_yesterday_outcome(input@, today@),
        ));
    }
    r
}

/// Recognizes the case-insensitive Russian word for yesterday and
/// returns `today` minus one day.
pub fn yesterday_on<'a>(input: &'a str, today: Date) -> (r: IResult<'a, Date>)
    requires
        today.valid(),
        year_in_step_range(today@.y),
    ensures
        res_matches_date(input@, r, yesterday_outcome(input@, today@)),
{
    proof {
        reveal_strlit("вчера");
        reveal_strlit("ВЧЕРА");
    }
    relative_word(input, "вчера", "ВЧЕРА", -1, today)
}

/// Recognizes the case-insensitive Russian word for yesterday and
/// returns the current local date minus one day.
pub fn yesterday<'a>(input: &'a str) -> (r: IResult<'a, Date>)
    ensures
        exists|t: Ymd|
            valid_ymd(t) && year_in_step_range(t.y) && res_matches_date(
                input@,
                r,
                yesterday_outcome(input@, t),
            ),
        r matches Ok((rem, dt)) ==> tag_ci_matches(input@, "вчера"@, "ВЧЕРА"@) && rem@
            == input@.skip("вчера"@.len() as int) && dt.valid(),
        r matches Err(e) ==> !tag_ci_matches(input@, "вчера"@, "ВЧЕРА"@) && (
        e matches Error::NoMatch(rest) && rest@ == input@),
{
    let (today, _wd) = clock::current_date();
    let r = yesterday_on(input, today);
    proof {
        assert(input@.skip(0) =~= input@);
        assert(valid_ymd(today@) && year_in_step_range(today@.y) && res_matches_date(
            input@,
            r,
            yesterday_outcome(input@, today@),
        ));
    }
    r
}

/// Recognizes the case-insensitive Russian word for today and returns
/// `today` itself.
pub fn today_on<'a>(input: &'a str, today: Date) -> (r: IResult<'a, Date>)
    requires
        today.valid(),
        year_in_step_range(today@.y),
    ensures
        res_matches_date(input@, r, today_outcome(input@, today@)),
{
    proof {
        reveal_strlit("сегодня");
        reveal_strlit("СЕГОДНЯ");
    }
    relative_word(input, "сегодня", "СЕГОДНЯ", 0, today)
}

/// Recognizes the case-insensitive Russian word for today and returns
/// the current local date.
pub fn today<'a>(input: &'a str) -> (r: IResult<'a, Date>)
    ensures
        exists|t: Ymd|
            valid_ymd(t) && year_in_step_range(t.y) && res_matches_date(
                input@,
                r,
                today_outcome(input@, t),
            ),
        r matches Ok((rem, dt)) ==> tag_ci_matches(input@, "сегодня"@, "СЕГОДНЯ"@) && rem@
            == input@.skip("сегодня"@.len() as int) && dt.valid(),
        r matches Err(e) ==> !tag_ci_matches(input@, "сегодня"@, "СЕГОДНЯ"@) && (
        e matches Error::NoMatch(rest) && rest@ == input@),
{
    let (now, _wd) = clock::current_date();
    let r = today_on(input, now);
    proof {
        assert(input@.skip(0) =~= input@);
        assert(valid_ymd(now@) && year_in_step_range(now@.y) && res_matches_date(
            input@,
            r,
            today_outcome(input@, now@),
        ));
    }
    r
}

/// Recognizes the case-insensitive Russian word for tomorrow and
/// returns `today` plus one day.
pub fn tomorrow_on<'a>(input: &'a str, today: Date) -> (r: IResult<'a, Date>)
    requires
        today.valid(),
        year_in_step_range(today@.y),
    ensures
        res_matches_date(input@, r, tomorrow_outcome(input@, today@)),
{
    proof {
        reveal_strlit("завтра");
        reveal_strlit("ЗАВТРА");
    }
    relative_word(input, "завтра", "ЗАВТРА", 1, today)
}

/// Recognizes the case-insensitive Russian word for tomorrow and
/// returns the current local date plus one day.
pub fn tomorrow<'a>(input: &'a str) -> (r: IResult<'a, Date>)
    ensures
        exists|t: Ymd|
            valid_ymd(t) && year_in_step_range(t.y) && res_matches_date(
                input@,
                r,
                tomorrow_outcome(input@, t),
            ),
        r matches Ok((rem, dt)) ==> tag_ci_matches(input@, "завтра"@, "ЗАВТРА"@) && rem@
            == input@.skip("завтра"@.len() as int) && dt.valid(),
        r matches Err(e) ==> !tag_ci_matches(input@, "завтра"@, "ЗАВТРА"@) && (
        e matches Error::NoMatch(rest) && rest@ == input@),
{
    let (today, _wd) = clock::current_date();
    let r = tomorrow_on(input, today);
    proof {
        assert(input@.skip(0) =~= input@);
        assert(valid_ymd(today@) && year_in_step_range(today@.y) && res_matches_date(
            input@,
            r,
            tomorrow_outcome(input@, today@),
        ));
    }
    r
}

/// Recognizes the case-insensitive Russian word for the day after
/// tomorrow and returns `today` plus two days.
pub fn day_after_tomorrow_on<'a>(input: &'a str, today: Date) -> (r: IResult<'a, Date>)
    requires
        today.valid(),
        year_in_step_range(today@.y),
    ensures
        res_matches_date(input@, r, day_after_tomorrow_outcome(input@, today@)),
{
    proof {
        reveal_strlit("послезавтра");
        reveal_strlit("ПОСЛЕЗАВТРА");
    }
    relative_word(input, "послезавтра", "ПОСЛЕЗАВТРА", 2, today)
}

/// Recognizes the case-insensitive Russian word for the day after
/// tomorrow and returns the current local date plus two days.
pub fn day_after_tomorrow<'a>(input: &'a str) -> (r: IResult<'a, Date>)
    ensures
        exists|t: Ymd|
            valid_ymd(t) && year_in_step_range(t.y) && res_matches_date(
                input@,
                r,
                day_after_tomorrow_outcome(input@, t),
            ),
        r matches Ok((rem, dt)) ==> tag_ci_matches(input@, "послезавтра"@, "ПОСЛЕЗАВТРА"@) && rem@
            == input@.skip("послезавтра"@.len() as int) && dt.valid(),
        r matches Err(e) ==> !tag_ci_matches(input@, "послезавтра"@, "ПОСЛЕЗАВТРА"@) && (
        e matches Error::NoMatch(rest) && rest@ == input@),
{
    let (today, _wd) = clock::current_date();
    let r = day_after_tomorrow_on(input, today);
    proof {
        assert(input@.skip(0) =~= input@);
        assert(valid_ymd(today@) && year_in_step_range(today@.y) && res_matches_date(
            input@,
            r,
            day_after_tomorrow_outcome(input@, today@),
        ));
    }
    r
}

} // verus!
