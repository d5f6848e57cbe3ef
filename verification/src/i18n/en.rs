//! English bundles: ordered alternation over the numeric composite
//! parsers and the English word recognizers, one entry point per
//! field-order convention.

use vstd::prelude::*;

mod relative;
mod weekday;

pub use relative::tomorrow;
pub use relative::tomorrow_on;
pub use relative::tomorrow_outcome;
pub use relative::yesterday;
pub use relative::yesterday_on;
pub use relative::yesterday_outcome;
pub use weekday::current_named_weekday_only;
pub use weekday::current_named_weekday_only_on;
pub use weekday::current_weekday_outcome;
pub use weekday::full_named_weekday;
pub use weekday::full_weekday_outcome;
pub use weekday::named_weekday;
pub use weekday::named_weekday_outcome;
pub use weekday::short_named_weekday;
pub use weekday::short_named_weekday_dot;
pub use weekday::short_weekday_dot_outcome;
pub use weekday::short_weekday_outcome;

use crate::clock;
use crate::date::Date;
use crate::date::Weekday;
use crate::date::Ymd;
use crate::date::valid_ymd;
use crate::date::year_in_step_range;
use crate::error::IResult;
use crate::numeric::dd_mm_only_on;
use crate::numeric::dd_mm_only_outcome;
use crate::numeric::dd_mm_y4;
use crate::numeric::dd_mm_y4_outcome;
use crate::numeric::dd_only_on;
use crate::numeric::dd_only_outcome;
use crate::numeric::mm_dd_only_on;
use crate::numeric::mm_dd_only_outcome;
use crate::numeric::mm_dd_y4;
use crate::numeric::mm_dd_y4_outcome;
use crate::scan::Outcome;
use crate::scan::orelse;
use crate::scan::res_matches_date;
use crate::scan::to_alt;

verus! {

/// Outcome of the English day-first bundle: the alternatives in their
/// priority order, most specific first, numeric parsers before word
/// recognizers. An alternative that parses but names no real date fails
/// with the non-existent-date kind, and alternation moves on; when every
/// alternative fails, the failure of the last one tried is reported.
pub open spec fn bundle_dmy_outcome(s: Seq<char>, today: Ymd, wd: int) -> Outcome<Ymd> {
    orelse(
        to_alt(dd_mm_y4_outcome(s)),
        orelse(
            to_alt(dd_mm_only_outcome(s, today)),
            orelse(
                to_alt(dd_only_outcome(s, today)),
                orelse(
                    yesterday_outcome(s, today),
                    orelse(tomorrow_outcome(s, today), current_weekday_outcome(s, today, wd)),
                ),
            ),
        ),
    )
}

/// Outcome of the English month-first bundle.
pub open spec fn bundle_mdy_outcome(s: Seq<char>, today: Ymd, wd: int) -> Outcome<Ymd> {
    orelse(
        to_alt(mm_dd_y4_outcome(s)),
        orelse(
            to_alt(mm_dd_only_outcome(s, today)),
            orelse(
                to_alt(dd_only_outcome(s, today)),
                orelse(
                    yesterday_outcome(s, today),
                    orelse(tomorrow_outcome(s, today), current_weekday_outcome(s, today, wd)),
                ),
            ),
        ),
    )
}

/// Recognizes numeric and English dates in the day-month-year order,
/// trying [`dd_mm_y4`], [`dd_mm_only_on`], [`dd_only_on`],
/// [`yesterday_on`], [`tomorrow_on`] and [`current_named_weekday_only_on`]
/// in that order against the week of `today`, whose weekday is `wd`.
pub fn bundle_dmy_on<'a>(input: &'a str, today: Date, wd: Weekday) -> (r: IResult<
    'a,
    Date,
>)
    requires
        today.valid(),
        year_in_step_range(today@.y),
    ensures
        res_matches_date(input@, r, bundle_dmy_outcome(input@, today@, wd.ord_spec())),
{
    match dd_mm_y4(input) {
        Ok((rem, Some(dt))) => {
            return Ok((rem, dt));
        },
        _ => {},
    }
    match dd_mm_only_on(input, today) {
        Ok((rem, Some(dt))) => {
            return Ok((rem, dt));
        },
        _ => {},
    }
    match dd_only_on(input, today) {
        Ok((rem, Some(dt))) => {
            return Ok((rem, dt));
        },
        _ => {},
    }
    match yesterday_on(input, today) {
        Ok(p) => {
            return Ok(p);
        },
        _ => {},
    }
    match tomorrow_on(input, today) {
        Ok(p) => {
            return Ok(p);
        },
        _ => {},
    }
    current_named_weekday_only_on(input, today, wd)
}

/// Recognizes numeric and English dates in the month-day-year order,
/// trying [`mm_dd_y4`], [`mm_dd_only_on`], [`dd_only_on`],
/// [`yesterday_on`], [`tomorrow_on`] and [`current_named_weekday_only_on`]
/// in that order against the week of `today`, whose weekday is `wd`.
pub fn bundle_mdy_on<'a>(input: &'a str, today: Date, wd: Weekday) -> (r: IResult<
    'a,
    Date,
>)
    requires
        today.valid(),
        year_in_step_range(today@.y),
    ensures
        res_matches_date(input@, r, bundle_mdy_outcome(input@, today@, wd.ord_spec())),
{
    match mm_dd_y4(input) {
        Ok((rem, Some(dt))) => {
            return Ok((rem, dt));
        },
        _ => {},
    }
    match mm_dd_only_on(input, today) {
        Ok((rem, Some(dt))) => {
            return Ok((rem, dt));
        },
        _ => {},
    }
    match dd_only_on(input, today) {
        Ok((rem, Some(dt))) => {
            return Ok((rem, dt));
        },
        _ => {},
    }
    match yesterday_on(input, today) {
        Ok(p) => {
            return Ok(p);
        },
        _ => {},
    }
    match tomorrow_on(input, today) {
        Ok(p) => {
            return Ok(p);
        },
        _ => {},
    }
    current_named_weekday_only_on(input, today, wd)
}

/// Recognizes numeric and English dates in the day-month-year order
/// against the current local date. A parse that names no real calendar
/// date is reported as a failure, not as an absent date.
pub fn bundle_dmy<'a>(input: &'a str) -> (r: IResult<'a, Date>)
    ensures
        exists|t: Ymd, w: int|
            valid_ymd(t) && year_in_step_range(t.y) && 0 <= w < 7 && res_matches_date(
                input@,
                r,
                bundle_dmy_outcome(input@, t, w),
            ),
        r matches Ok((_, dt)) ==> dt.valid(),
{
    let (today, wd) = clock::current_date();
    let r = bundle_dmy_on(input, today, wd);
    proof {
        assert(valid_ymd(today@) && year_in_step_range(today@.y) && 0 <= wd.ord_spec() < 7
            && res_matches_date(input@, r, bundle_dmy_outcome(input@, today@, wd.ord_spec())));
    }
    r
}

/// Recognizes numeric and English dates in the month-day-year order
/// against the current local date. A parse that names no real calendar
/// date is reported as a failure, not as an absent date.
pub fn bundle_mdy<'a>(input: &'a str) -> (r: IResult<'a, Date>)
    ensures
        exists|t: Ymd, w: int|
            valid_ymd(t) && year_in_step_range(t.y) && 0 <= w < 7 && res_matches_date(
                input@,
                r,
                bundle_mdy_outcome(input@, t, w),
            ),
        r matches Ok((_, dt)) ==> dt.valid(),
{
    let (today, wd) = clock::current_date();
    let r = bundle_mdy_on(input, today, wd);
    proof {
        assert(valid_ymd(today@) && year_in_step_range(today@.y) && 0 <= wd.ord_spec() < 7
            && res_matches_date(input@, r, bundle_mdy_outcome(input@, today@, wd.ord_spec())));
    }
    r
}

} // verus!
