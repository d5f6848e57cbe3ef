//! Locale-specific recognizers: fixed-vocabulary words for relative days
//! and weekday names, and the per-locale bundles composed from them.

use vstd::prelude::*;

use crate::clock;
use crate::date::Date;
use crate::date::Weekday;
use crate::date::Ymd;
use crate::date::shift_ymd;
use crate::date::valid_ymd;
use crate::date::year_in_step_range;
use crate::error::Error;
use crate::error::IResult;
use crate::scan::Outcome;
use crate::scan::res_matches_date;
use crate::scan::tag_ci;
use crate::scan::tag_outcome;

pub mod en;
pub mod ru;

verus! {

/// Outcome of a relative-day word: when the word is at the head of `s`,
/// today's date shifted by `delta` days.
pub open spec fn relative_word_outcome(
    s: Seq<char>,
    lo: Seq<char>,
    up: Seq<char>,
    delta: int,
    today: Ymd,
) -> Outcome<Ymd> {
    match tag_outcome(s, lo, up) {
        Outcome::Parsed { used, .. } => Outcome::Parsed { used, val: shift_ymd(today, delta) },
        Outcome::Failed { err } => Outcome::Failed { err },
    }
}

/// Recognizes one case-insensitive relative-day word and returns `today`
/// shifted by `delta` days.
pub(crate) fn relative_word<'a>(input: &'a str, lo: &str, up: &str, delta: i32, today: Date) -> (r:
    IResult<'a, Date>)
    requires
        lo@.len() == up@.len(),
        today.valid(),
        year_in_step_range(today@.y),
        -366 <= delta <= 366,
    ensures
        res_matches_date(input@, r, relative_word_outcome(input@, lo@, up@, delta as int, today@)),
{
    match tag_ci(input, lo, up) {
        Some(rem) => Ok((rem, today.shift_days(delta))),
        None => {
            proof {
                assert(input@.skip(0) =~= input@);
            }
            Err(Error::NoMatch(input))
        },
    }
}

/// The date of the weekday with days-from-Monday `target` in the week of
/// `today`, whose own days-from-Monday is `wd`: today shifted by
/// `target - wd` days. The shift can reach backwards as well as
/// forwards, and never wraps to another week.
pub open spec fn weekday_date(today: Ymd, wd: int, target: int) -> Ymd {
    shift_ymd(today, target - wd)
}

/// Returns the date of the given weekday within the week of `today`,
/// Monday-based: earlier weekdays give a date before `today`, later ones
/// a date after it, never wrapping to the next week.
pub fn naive_date_for_weekday_on(today: Date, today_wd: Weekday, weekday: Weekday) -> (r: Date)
    requires
        today.valid(),
        year_in_step_range(today@.y),
    ensures
        r@ == weekday_date(today@, today_wd.ord_spec(), weekday.ord_spec()),
        r.valid(),
{
    let tw: u32 = today_wd.ord();
    let gw: u32 = weekday.ord();
    let delta: i32 = (gw as i32) - (tw as i32);
    today.shift_days(delta)
}

/// Returns the date of the given weekday within the current local week.
///
/// If today is `16/07/2024`, a Tuesday, then asking for Monday gives
/// `15/07/2024` and asking for Saturday gives `20/07/2024`.
pub fn naive_date_for_weekday(weekday: Weekday) -> (r: Date)
    ensures
        r.valid(),
        exists|t: Ymd, w: int|
            valid_ymd(t) && 0 <= w < 7 && r@ == weekday_date(t, w, weekday.ord_spec()),
{
    let (today, wd) = clock::current_date();
    let r = naive_date_for_weekday_on(today, wd, weekday);
    proof {
        assert(valid_ymd(today@) && 0 <= wd.ord_spec() < 7 && r@ == weekday_date(
            today@,
            wd.ord_spec(),
            weekday.ord_spec(),
        ));
    }
    r
}

/// When today is a Thursday, the Monday of the current week lies exactly
/// three days before today — the week is never wrapped forwards.
pub proof fn lemma_weekday_in_week_thursday(today: Ymd)
    ensures
        weekday_date(today, Weekday::Thu.ord_spec(), Weekday::Mon.ord_spec()) == shift_ymd(
            today,
            -3,
        ),
{
}

} // verus!
