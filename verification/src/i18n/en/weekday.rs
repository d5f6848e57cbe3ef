//! English weekday names, short and full, and the recognizer that maps a
//! named weekday to its date in the current week.

use vstd::prelude::*;
use vstd::string::StrSliceExecFns;

use crate::clock;
use crate::date::Date;
use crate::date::Weekday;
use crate::date::Ymd;
use crate::date::valid_ymd;
use crate::date::year_in_step_range;
use crate::error::Error;
use crate::error::IResult;
use crate::i18n::naive_date_for_weekday_on;
use crate::i18n::weekday_date;
use crate::scan::FailKind;
use crate::scan::Outcome;
use crate::scan::err_matches;
use crate::scan::lemma_skip_skip;
use crate::scan::orelse;
use crate::scan::res_matches_date;
use crate::scan::res_matches_weekday;
use crate::scan::tag_ci;
use crate::scan::tag_ci_matches;

verus! {

/// Outcome of a short English weekday name at the head of `s`, tried in
/// a fixed order with the first match winning; the value is the
/// weekday's days from Monday.
pub open spec fn short_weekday_outcome(s: Seq<char>) -> Outcome<int> {
    if tag_ci_matches(s, "mon"@, "MON"@) {
        Outcome::Parsed { used: 3, val: 0 }
    } else if tag_ci_matches(s, "tue"@, "TUE"@) {
        Outcome::Parsed { used: 3, val: 1 }
    } else if tag_ci_matches(s, "tues"@, "TUES"@) {
        Outcome::Parsed { used: 4, val: 1 }
    } else if tag_ci_matches(s, "wed"@, "WED"@) {
        Outcome::Parsed { used: 3, val: 2 }
    } else if tag_ci_matches(s, "thu"@, "THU"@) {
        Outcome::Parsed { used: 3, val: 3 }
    } else if tag_ci_matches(s, "thur"@, "THUR"@) {
        Outcome::Parsed { used: 4, val: 3 }
    } else if tag_ci_matches(s, "thurs"@, "THURS"@) {
        Outcome::Parsed { used: 5, val: 3 }
    } else if tag_ci_matches(s, "fri"@, "FRI"@) {
        Outcome::Parsed { used: 3, val: 4 }
    } else if tag_ci_matches(s, "sat"@, "SAT"@) {
        Outcome::Parsed { used: 3, val: 5 }
    } else if tag_ci_matches(s, "sun"@, "SUN"@) {
        Outcome::Parsed { used: 3, val: 6 }
    } else {
        Outcome::Failed { err: FailKind::NoMatch { at: 0 } }
    }
}

/// Outcome of a short English weekday name followed by a dot.
pub open spec fn short_weekday_dot_outcome(s: Seq<char>) -> Outcome<int> {
    match short_weekday_outcome(s) {
        Outcome::Parsed { used, val } => if used < s.len() && s[used] == '.' {
            Outcome::Parsed { used: used + 1, val }
        } else {
            Outcome::Failed { err: FailKind::NoMatch { at: used } }
        },
        f => f,
    }
}

/// Outcome of a full English weekday name at the head of `s`.
pub open spec fn full_weekday_outcome(s: Seq<char>) -> Outcome<int> {
    if tag_ci_matches(s, "monday"@, "MONDAY"@) {
        Outcome::Parsed { used: 6, val: 0 }
    } else if tag_ci_matches(s, "tuesday"@, "TUESDAY"@) {
        Outcome::Parsed { used: 7, val: 1 }
    } else if tag_ci_matches(s, "wednesday"@, "WEDNESDAY"@) {
        Outcome::Parsed { used: 9, val: 2 }
    } else if tag_ci_matches(s, "thursday"@, "THURSDAY"@) {
        Outcome::Parsed { used: 8, val: 3 }
    } else if tag_ci_matches(s, "friday"@, "FRIDAY"@) {
        Outcome::Parsed { used: 6, val: 4 }
    } else if tag_ci_matches(s, "saturday"@, "SATURDAY"@) {
        Outcome::Parsed { used: 8, val: 5 }
    } else if tag_ci_matches(s, "sunday"@, "SUNDAY"@) {
        Outcome::Parsed { used: 6, val: 6 }
    } else {
        Outcome::Failed { err: FailKind::NoMatch { at: 0 } }
    }
}

/// Outcome of any English weekday name: full names first, then short
/// names with a trailing dot, then bare short names; the failure of the
/// last alternative is the one reported.
pub open spec fn named_weekday_outcome(s: Seq<char>) -> Outcome<int> {
    orelse(
        full_weekday_outcome(s),
        orelse(short_weekday_dot_outcome(s), short_weekday_outcome(s)),
    )
}

/// Outcome of a named weekday completed to the date of that weekday in
/// the current week of `today`, whose days-from-Monday is `wd`.
pub open spec fn current_weekday_outcome(s: Seq<char>, today: Ymd, wd: int) -> Outcome<Ymd> {
    match named_weekday_outcome(s) {
        Outcome::Parsed { used, val } => Outcome::Parsed {
            used,
            val: weekday_date(today, wd, val),
        },
        Outcome::Failed { err } => Outcome::Failed { err },
    }
}

/// Recognizes a case-insensitive short weekday name in English:
/// `mon`, `tue`, `tues`, `wed`, `thu`, `thur`, `thurs`, `fri`, `sat`,
/// `sun`, tried in that order with the first match winning.
pub fn short_named_weekday<'a>(input: &'a str) -> (r: IResult<'a, Weekday>)
    ensures
        res_matches_weekday(input@, r, short_weekday_outcome(input@)),
{
    proof {
        reveal_strlit("mon");
        reveal_strlit("MON");
        reveal_strlit("tue");
        reveal_strlit("TUE");
        reveal_strlit("tues");
        reveal_strlit("TUES");
        reveal_strlit("wed");
        reveal_strlit("WED");
        reveal_strlit("thu");
        reveal_strlit("THU");
        reveal_strlit("thur");
        reveal_strlit("THUR");
        reveal_strlit("thurs");
        reveal_strlit("THURS");
        reveal_strlit("fri");
        reveal_strlit("FRI");
        reveal_strlit("sat");
        reveal_strlit("SAT");
        reveal_strlit("sun");
        reveal_strlit("SUN");
    }
    if let Some(rem) = tag_ci(input, "mon", "MON") {
        return Ok((rem, Weekday::Mon));
    }
    if let Some(rem) = tag_ci(input, "tue", "TUE") {
        return Ok((rem, Weekday::Tue));
    }
    if let Some(rem) = tag_ci(input, "tues", "TUES") {
        return Ok((rem, Weekday::Tue));
    }
    if let Some(rem) = tag_ci(input, "wed", "WED") {
        return Ok((rem, Weekday::Wed));
    }
    if let Some(rem) = tag_ci(input, "thu", "THU") {
        return Ok((rem, Weekday::Thu));
    }
    if let Some(rem) = tag_ci(input, "thur", "THUR") {
        return Ok((rem, Weekday::Thu));
    }
    if let Some(rem) = tag_ci(input, "thurs", "THURS") {
        return Ok((rem, Weekday::Thu));
    }
    if let Some(rem) = tag_ci(input, "fri", "FRI") {
        return Ok((rem, Weekday::Fri));
    }
    if let Some(rem) = tag_ci(input, "sat", "SAT") {
        return Ok((rem, Weekday::Sat));
    }
    if let Some(rem) = tag_ci(input, "sun", "SUN") {
        return Ok((rem, Weekday::Sun));
    }
    proof {
        assert(input@.skip(0) =~= input@);
    }
    Err(Error::NoMatch(input))
}

/// Recognizes a case-insensitive short weekday name in English which
/// ends with a dot, using the [`short_named_weekday`] parser.
pub fn short_named_weekday_dot<'a>(input: &'a str) -> (r: IResult<'a, Weekday>)
    ensures
        res_matches_weekday(input@, r, short_weekday_dot_outcome(input@)),
{
    let (rem, w) = match short_named_weekday(input) {
        Ok(p) => p,
        Err(e) => {
            return Err(e);
        },
    };
    let n: usize = rem.unicode_len();
    if n >= 1 {
        let c: char = rem.get_char(0);
        if c == '.' {
            proof {
                let u: int = short_weekday_outcome(input@)->used;
                lemma_skip_skip(input@, u, 1);
            }
            return Ok((rem.substring_char(1, n), w));
        }
    }
    Err(Error::NoMatch(rem))
}

/// Recognizes a case-insensitive full weekday name in English:
/// `monday` through `sunday`.
pub fn full_named_weekday<'a>(input: &'a str) -> (r: IResult<'a, Weekday>)
    ensures
        res_matches_weekday(input@, r, full_weekday_outcome(input@)),
{
    proof {
        reveal_strlit("monday");
        reveal_strlit("MONDAY");
        reveal_strlit("tuesday");
        reveal_strlit("TUESDAY");
        reveal_strlit("wednesday");
        reveal_strlit("WEDNESDAY");
        reveal_strlit("thursday");
        reveal_strlit("THURSDAY");
        reveal_strlit("friday");
        reveal_strlit("FRIDAY");
        reveal_strlit("saturday");
        reveal_strlit("SATURDAY");
        reveal_strlit("sunday");
        reveal_strlit("SUNDAY");
    }
    if let Some(rem) = tag_ci(input, "monday", "MONDAY") {
        return Ok((rem, Weekday::Mon));
    }
    if let Some(rem) = tag_ci(input, "tuesday", "TUESDAY") {
        return Ok((rem, Weekday::Tue));
    }
    if let Some(rem) = tag_ci(input, "wednesday", "WEDNESDAY") {
        return Ok((rem, Weekday::Wed));
    }
    if let Some(rem) = tag_ci(input, "thursday", "THURSDAY") {
        return Ok((rem, Weekday::Thu));
    }
    if let Some(rem) = tag_ci(input, "friday", "FRIDAY") {
        return Ok((rem, Weekday::Fri));
    }
    if let Some(rem) = tag_ci(input, "saturday", "SATURDAY") {
        return Ok((rem, Weekday::Sat));
    }
    if let Some(rem) = tag_ci(input, "sunday", "SUNDAY") {
        return Ok((rem, Weekday::Sun));
    }
    proof {
        assert(input@.skip(0) =~= input@);
    }
    Err(Error::NoMatch(input))
}

/// Recognizes either a short or a full case-insensitive weekday name in
/// English: full names first, then dotted short names, then bare short
/// names.
pub fn named_weekday<'a>(input: &'a str) -> (r: IResult<'a, Weekday>)
    ensures
        res_matches_weekday(input@, r, named_weekday_outcome(input@)),
{
    match full_named_weekday(input) {
        Ok(p) => {
            return Ok(p);
        },
        Err(_) => {},
    }
    match short_named_weekday_dot(input) {
        Ok(p) => {
            return Ok(p);
        },
        Err(_) => {},
    }
    short_named_weekday(input)
}

/// Recognizes a case-insensitive weekday name in English and returns the
/// date of that weekday within the week of `today`, whose weekday is
/// `today_wd`.
pub fn current_named_weekday_only_on<'a>(input: &'a str, today: Date, today_wd: Weekday) -> (r:
    IResult<'a, Date>)
    requires
        today.valid(),
        year_in_step_range(today@.y),
    ensures
        res_matches_date(input@, r, current_weekday_outcome(input@, today@, today_wd.ord_spec())),
{
    let (rem, w) = match named_weekday(input) {
        Ok(p) => p,
        Err(e) => {
            return Err(e);
        },
    };
    Ok((rem, naive_date_for_weekday_on(today, today_wd, w)))
}

/// Recognizes a case-insensitive weekday name in English and returns the
/// date of that weekday within the current local week.
pub fn current_named_weekday_only<'a>(input: &'a str) -> (r: IResult<'a, Date>)
    ensures
        exists|t: Ymd, w: int|
            valid_ymd(t) && year_in_step_range(t.y) && 0 <= w < 7 && res_matches_date(
                input@,
                r,
                current_weekday_outcome(input@, t, w),
            ),
        r matches Ok((rem, dt)) ==> named_weekday_outcome(input@) matches Outcome::Parsed {
            used,
            val,
        } && rem@ == input@.skip(used) && dt.valid(),
        r matches Err(e) ==> named_weekday_outcome(input@) matches Outcome::Failed { err }
            && err_matches(input@, e, err),
{
    let (today, wd) = clock::current_date();
    let r = current_named_weekday_only_on(input, today, wd);
    proof {
        assert(valid_ymd(today@) && year_in_step_range(today@.y) && 0 <= wd.ord_spec() < 7
            && res_matches_date(
            input@,
            r,
            current_weekday_outcome(input@, today@, wd.ord_spec()),
        ));
    }
    r
}

} // verus!
