//! Russian weekday names, short and full, and the recognizer that maps a
//! named weekday to its date in the current week.

use vstd::prelude::*;
use vstd::string::StrSliceExecFns;

use crate::clock;
use crate::date::Date;
use crate::date::Weekday;
use crate::date::Ymd;
use crate::date::valid_ymd;
use crate::date::year_in_step_range;
use crate::error::Error;
use crate::error::IResult;
use crate::i18n::naive_date_for_weekday_on;
use crate::i18n::weekday_date;
use crate::scan::FailKind;
use crate::scan::Outcome;
use crate::scan::err_matches;
use crate::scan::lemma_skip_skip;
use crate::scan::orelse;
use crate::scan::res_matches_date;
use crate::scan::res_matches_weekday;
use crate::scan::tag_ci;
use crate::scan::tag_ci_matches;

verus! {

/// Outcome of a short Russian weekday name at the head of `s`; the value
/// is the weekday's days from Monday.
pub open spec fn short_weekday_outcome(s: Seq<char>) -> Outcome<int> {
    if tag_ci_matches(s, "пн"@, "ПН"@) {
        Outcome::Parsed { used: 2, val: 0 }
    } else if tag_ci_matches(s, "вт"@, "ВТ"@) {
        Outcome::Parsed { used: 2, val: 1 }
    } else if tag_ci_matches(s, "ср"@, "СР"@) {
        Outcome::Parsed { used: 2, val: 2 }
    } else if tag_ci_matches(s, "чт"@, "ЧТ"@) {
        Outcome::Parsed { used: 2, val: 3 }
    } else if tag_ci_matches(s, "пт"@, "ПТ"@) {
        Outcome::Parsed { used: 2, val: 4 }
    } else if tag_ci_matches(s, "сб"@, "СБ"@) {
        Outcome::Parsed { used: 2, val: 5 }
    } else if tag_ci_matches(s, "вс"@, "ВС"@) {
        Outcome::Parsed { used: 2, val: 6 }
    } else {
        Outcome::Failed { err: FailKind::NoMatch { at: 0 } }
    }
}

/// Outcome of a short Russian weekday name followed by a dot.
pub open spec fn short_weekday_dot_outcome(s: Seq<char>) -> Outcome<int> {
    match short_weekday_outcome(s) {
        Outcome::Parsed { used, val } => if used < s.len() && s[used] == '.' {
            Outcome::Parsed { used: used + 1, val }
        } else {
            Outcome::Failed { err: FailKind::NoMatch { at: used } }
        },
        f => f,
    }
}

/// Outcome of a full Russian weekday name at the head of `s`.
pub open spec fn full_weekday_outcome(s: Seq<char>) -> Outcome<int> {
    if tag_ci_matches(s, "понедельник"@, "ПОНЕДЕЛЬНИК"@) {
        Outcome::Parsed { used: 11, val: 0 }
    } else if tag_ci_matches(s, "вторник"@, "ВТОРНИК"@) {
        Outcome::Parsed { used: 7, val: 1 }
    } else if tag_ci_matches(s, "среда"@, "СРЕДА"@) {
        Outcome::Parsed { used: 5, val: 2 }
    } else if tag_ci_matches(s, "четверг"@, "ЧЕТВЕРГ"@) {
        Outcome::Parsed { used: 7, val: 3 }
    } else if tag_ci_matches(s, "пятница"@, "ПЯТНИЦА"@) {
        Outcome::Parsed { used: 7, val: 4 }
    } else if tag_ci_matches(s, "суббота"@, "СУББОТА"@) {
        Outcome::Parsed { used: 7, val: 5 }
    } else if tag_ci_matches(s, "воскресенье"@, "ВОСКРЕСЕНЬЕ"@) {
        Outcome::Parsed { used: 11, val: 6 }
    } else {
        Outcome::Failed { err: FailKind::NoMatch { at: 0 } }
    }
}

/// Outcome of any Russian weekday name: full names first, then short
/// names with a trailing dot, then bare short names.
pub open spec fn named_weekday_outcome(s: Seq<char>) -> Outcome<int> {
    orelse(
        full_weekday_outcome(s),
        orelse(short_weekday_dot_outcome(s), short_weekday_outcome(s)),
    )
}

/// Outcome of a named weekday completed to the date of that weekday in
/// the current week of `today`, whose days-from-Monday is `wd`.
pub open spec fn current_weekday_outcome(s: Seq<char>, today: Ymd, wd: int) -> Outcome<Ymd> {
    match named_weekday_outcome(s) {
        Outcome::Parsed { used, val } => Outcome::Parsed {
            used,
            val: weekday_date(today, wd, val),
        },
        Outcome::Failed { err } => Outcome::Failed { err },
    }
}

/// Recognizes a case-insensitive short weekday name in Russian, from
/// Monday through Sunday, tried in that order.
pub fn short_named_weekday<'a>(input: &'a str) -> (r: IResult<'a, Weekday>)
    ensures
        res_matches_weekday(input@, r, short_weekday_outcome(input@)),
{
    proof {
        reveal_strlit("пн");
        reveal_strlit("ПН");
        reveal_strlit("вт");
        reveal_strlit("ВТ");
        reveal_strlit("ср");
        reveal_strlit("СР");
        reveal_strlit("чт");
        reveal_strlit("ЧТ");
        reveal_strlit("пт");
        reveal_strlit("ПТ");
        reveal_strlit("сб");
        reveal_strlit("СБ");
        reveal_strlit("вс");
        reveal_strlit("ВС");
    }
    if let Some(rem) = tag_ci(input, "пн", "ПН") {
        return Ok((rem, Weekday::Mon));
    }
    if let Some(rem) = tag_ci(input, "вт", "ВТ") {
        return Ok((rem, Weekday::Tue));
    }
    if let Some(rem) = tag_ci(input, "ср", "СР") {
        return Ok((rem, Weekday::Wed));
    }
    if let Some(rem) = tag_ci(input, "чт", "ЧТ") {
        return Ok((rem, Weekday::Thu));
    }
    if let Some(rem) = tag_ci(input, "пт", "ПТ") {
        return Ok((rem, Weekday::Fri));
    }
    if let Some(rem) = tag_ci(input, "сб", "СБ") {
        return Ok((rem, Weekday::Sat));
    }
    if let Some(rem) = tag_ci(input, "вс", "ВС") {
        return Ok((rem, Weekday::Sun));
    }
    proof {
        assert(input@.skip(0) =~= input@);
    }
    Err(Error::NoMatch(input))
}

/// Recognizes a case-insensitive short weekday name in Russian which
/// ends with a dot, using the [`short_named_weekday`] parser.
pub fn short_named_weekday_dot<'a>(input: &'a str) -> (r: IResult<'a, Weekday>)
    ensures
        res_matches_weekday(input@, r, short_weekday_dot_outcome(input@)),
{
    let (rem, w) = match short_named_weekday(input) {
        Ok(p) => p,
        Err(e) => {
            return Err(e);
        },
    };
    let n: usize = rem.unicode_len();
    if n >= 1 {
        let c: char = rem.get_char(0);
        if c == '.' {
            proof {
                let u: int = short_weekday_outcome(input@)->used;
                lemma_skip_skip(input@, u, 1);
            }
            return Ok((rem.substring_char(1, n), w));
        }
    }
    Err(Error::NoMatch(rem))
}

/// Recognizes a case-insensitive full weekday name in Russian, from
/// Monday through Sunday.
pub fn full_named_weekday<'a>(input: &'a str) -> (r: IResult<'a, Weekday>)
    ensures
        res_matches_weekday(input@, r, full_weekday_outcome(input@)),
{
    proof {
        reveal_strlit("понедельник");
        reveal_strlit("ПОНЕДЕЛЬНИК");
        reveal_strlit("вторник");
        reveal_strlit("ВТОРНИК");
        reveal_strlit("среда");
        reveal_strlit("СРЕДА");
        reveal_strlit("четверг");
        reveal_strlit("ЧЕТВЕРГ");
        reveal_strlit("пятница");
        reveal_strlit("ПЯТНИЦА");
        reveal_strlit("суббота");
        reveal_strlit("СУББОТА");
        reveal_strlit("воскресенье");
        reveal_strlit("ВОСКРЕСЕНЬЕ");
    }
    if let Some(rem) = tag_ci(input, "понедельник", "ПОНЕДЕЛЬНИК") {
        return Ok((rem, Weekday::Mon));
    }
    if let Some(rem) = tag_ci(input, "вторник", "ВТОРНИК") {
        return Ok((rem, Weekday::Tue));
    }
    if let Some(rem) = tag_ci(input, "среда", "СРЕДА") {
        return Ok((rem, Weekday::Wed));
    }
    if let Some(rem) = tag_ci(input, "четверг", "ЧЕТВЕРГ") {
        return Ok((rem, Weekday::Thu));
    }
    if let Some(rem) = tag_ci(input, "пятница", "ПЯТНИЦА") {
        return Ok((rem, Weekday::Fri));
    }
    if let Some(rem) = tag_ci(input, "суббота", "СУББОТА") {
        return Ok((rem, Weekday::Sat));
    }
    if let Some(rem) = tag_ci(input, "воскресенье", "ВОСКРЕСЕНЬЕ") {
        return Ok((rem, Weekday::Sun));
    }
    proof {
        assert(input@.skip(0) =~= input@);
    }
    Err(Error::NoMatch(input))
}

/// Recognizes either a short or a full case-insensitive weekday name in
/// Russian: full names first, then dotted short names, then bare short
/// names.
pub fn named_weekday<'a>(input: &'a str) -> (r: IResult<'a, Weekday>)
    ensures
        res_matches_weekday(input@, r, named_weekday_outcome(input@)),
{
    match full_named_weekday(input) {
        Ok(p) => {
            return Ok(p);
        },
        Err(_) => {},
    }
    match short_named_weekday_dot(input) {
        Ok(p) => {
            return Ok(p);
        },
        Err(_) => {},
    }
    short_named_weekday(input)
}

/// Recognizes a case-insensitive weekday name in Russian and returns the
/// date of that weekday within the week of `today`, whose weekday is
/// `today_wd`.
pub fn current_named_weekday_only_on<'a>(input: &'a str, today: Date, today_wd: Weekday) -> (r:
    IResult<'a, Date>)
    requires
        today.valid(),
        year_in_step_range(today@.y),
    ensures
        res_matches_date(input@, r, current_weekday_outcome(input@, today@, today_wd.ord_spec())),
{
    let (rem, w) = match named_weekday(input) {
        Ok(p) => p,
        Err(e) => {
            return Err(e);
        },
    };
    Ok((rem, naive_date_for_weekday_on(today, today_wd, w)))
}

/// Recognizes a case-insensitive weekday name in Russian and returns the
/// date of that weekday within the current local week.
pub fn current_named_weekday_only<'a>(input: &'a str) -> (r: IResult<'a, Date>)
    ensures
        exists|t: Ymd, w: int|
            valid_ymd(t) && year_in_step_range(t.y) && 0 <= w < 7 && res_matches_date(
                input@,
                r,
                current_weekday_outcome(input@, t, w),
            ),
        r matches Ok((rem, dt)) ==> named_weekday_outcome(input@) matches Outcome::Parsed {
            used,
            val,
        } && rem@ == input@.skip(used) && dt.valid(),
        r matches Err(e) ==> named_weekday_outcome(input@) matches Outcome::Failed { err }
            && err_matches(input@, e, err),
{
    let (today, wd) = clock::current_date();
    let r = current_named_weekday_only_on(input, today, wd);
    proof {
        assert(valid_ymd(today@) && year_in_step_range(today@.y) && 0 <= wd.ord_spec() < 7
            && res_matches_date(
            input@,
            r,
            current_weekday_outcome(input@, today@, wd.ord_spec()),
        ));
    }
    r
}

} // verus!
