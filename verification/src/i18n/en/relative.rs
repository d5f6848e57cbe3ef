//! English relative-day words: "yesterday" and "tomorrow".

use vstd::prelude::*;

use crate::clock;
use crate::date::Date;
use crate::date::Ymd;
use crate::date::valid_ymd;
use crate::date::year_in_step_range;
use crate::error::Error;
use crate::error::IResult;
use crate::i18n::relative_word;
use crate::i18n::relative_word_outcome;
use crate::scan::Outcome;
use crate::scan::res_matches_date;
use crate::scan::tag_ci_matches;

verus! {

/// Outcome of the word "yesterday": the day before `today`.
pub open spec fn yesterday_outcome(s: Seq<char>, today: Ymd) -> Outcome<Ymd> {
    relative_word_outcome(s, "yesterday"@, "YESTERDAY"@, -1, today)
}

/// Outcome of the word "tomorrow": the day after `today`.
pub open spec fn tomorrow_outcome(s: Seq<char>, today: Ymd) -> Outcome<Ymd> {
    relative_word_outcome(s, "tomorrow"@, "TOMORROW"@, 1, today)
}

/// Recognizes the case-insensitive word "yesterday" and returns the day
/// before `today`.
pub fn yesterday_on<'a>(input: &'a str, today: Date) -> (r: IResult<'a, Date>)
    requires
        today.valid(),
        year_in_step_range(today@.y),
    ensures
        res_matches_date(input@, r, yesterday_outcome(input@, today@)),
{
    proof {
        reveal_strlit("yesterday");
        reveal_strlit("YESTERDAY");
    }
    relative_word(input, "yesterday", "YESTERDAY", -1, today)
}

/// Recognizes the case-insensitive word "yesterday" in English and
/// returns the corresponding date: the current local date minus one day.
pub fn yesterday<'a>(input: &'a str) -> (r: IResult<'a, Date>)
    ensures
        exists|t: Ymd|
            valid_ymd(t) && year_in_step_range(t.y) && res_matches_date(
                input@,
                r,
                yesterday_outcome(input@, t),
            ),
        r matches Ok((rem, dt)) ==> tag_ci_matches(input@, "yesterday"@, "YESTERDAY"@) && rem@
            == input@.skip("yesterday"@.len() as int) && dt.valid(),
        r matches Err(e) ==> !tag_ci_matches(input@, "yesterday"@, "YESTERDAY"@) && (e matches Error::NoMatch(rest)
            && rest@ == input@),
{
    let (today, _wd) = clock::current_date();
    let r = yesterday_on(input, today);
    proof {
        assert(input@.skip(0) =~= input@);
        assert(valid_ymd(today@) && year_in_step_range(today@.y) && res_matches_date(
            input@,
            r,
            yesterday_outcome(input@, today@),
        ));
    }
    r
}

/// Recognizes the case-insensitive word "tomorrow" and returns the day
/// after `today`.
pub fn tomorrow_on<'a>(input: &'a str, today: Date) -> (r: IResult<'a, Date>)
    requires
        today.valid(),
        year_in_step_range(today@.y),
    ensures
        res_matches_date(input@, r, tomorrow_outcome(input@, today@)),
{
    proof {
        reveal_strlit("tomorrow");
        reveal_strlit("TOMORROW");
    }
    relative_word(input, "tomorrow", "TOMORROW", 1, today)
}

/// Recognizes the case-insensitive word "tomorrow" in English and
/// returns the corresponding date: the current local date plus one day.
pub fn tomorrow<'a>(input: &'a str) -> (r: IResult<'a, Date>)
    ensures
        exists|t: Ymd|
            valid_ymd(t) && year_in_step_range(t.y) && res_matches_date(
                input@,
                r,
                tomorrow_outcome(input@, t),
            ),
        r matches Ok((rem, dt)) ==> tag_ci_matches(input@, "tomorrow"@, "TOMORROW"@) && rem@
            == input@.skip("tomorrow"@.len() as int) && dt.valid(),
        r matches Err(e) ==> !tag_ci_matches(input@, "tomorrow"@, "TOMORROW"@) && (e matches Error::NoMatch(rest)
            && rest@ == input@),
{
    let (today, _wd) = clock::current_date();
    let r = tomorrow_on(input, today);
    proof {
        assert(input@.skip(0) =~= input@);
        assert(valid_ymd(today@) && year_in_step_range(today@.y) && res_matches_date(
            input@,
            r,
            tomorrow_outcome(input@, today@),
        ));
    }
    r
}

} // verus!
