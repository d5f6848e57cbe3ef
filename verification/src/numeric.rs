//! Numeric date recognizers: day, month and 4-digit-year fields with
//! range validation, the inter-field separator, and the composite parsers
//! that assemble a calendar date from ordered field groups.
//!
//! Range violations on a day or month field are hard failures that stop a
//! composite parser at once. A parsed combination that names no real
//! calendar date is not a failure: the composite parser still succeeds
//! and returns an absent date. Callers must check for absence themselves.

use vstd::prelude::*;
use vstd::string::StrSliceExecFns;

use crate::clock;
use crate::date::Date;
use crate::date::Ymd;
use crate::date::valid_ymd;
use crate::error::Error;
use crate::error::IResult;
use crate::scan::FailKind;
use crate::scan::Outcome;
use crate::scan::digit_val;
use crate::scan::err_matches;
use crate::scan::fail_at;
use crate::scan::is_digit;
use crate::scan::is_digit_exec;
use crate::scan::lemma_err_at;
use crate::scan::lemma_skip_skip;
use crate::scan::res_matches_opt_date;
use crate::scan::res_matches_pair;
use crate::scan::res_matches_u32;
use crate::scan::res_matches_unit;
use crate::scan::scan_space_run;
use crate::scan::space_run;

verus! {

/// Outcome of the one-or-two digit numeric field at the head of `s`,
/// before any range check: two digits when both are there, one digit
/// otherwise.
pub open spec fn raw_field(s: Seq<char>) -> Outcome<int> {
    if s.len() >= 2 && is_digit(s[0]) && is_digit(s[1]) {
        Outcome::Parsed { used: 2, val: digit_val(s[0]) * 10 + digit_val(s[1]) }
    } else if s.len() >= 1 && is_digit(s[0]) {
        Outcome::Parsed { used: 1, val: digit_val(s[0]) }
    } else if s.len() == 0 {
        Outcome::Failed { err: FailKind::NoMatch { at: 0 } }
    } else {
        Outcome::Failed { err: FailKind::IntParse { at: 0 } }
    }
}

/// Outcome of the day field at the head of `s`: the raw field, accepted
/// only in `1..=31`.
pub open spec fn day_field(s: Seq<char>) -> Outcome<int> {
    match raw_field(s) {
        Outcome::Parsed { used, val } => if 1 <= val <= 31 {
            Outcome::Parsed { used, val }
        } else {
            Outcome::Failed { err: FailKind::Day }
        },
        f => f,
    }
}

/// Outcome of the month field at the head of `s`: the raw field, accepted
/// only in `1..=12`.
pub open spec fn month_field(s: Seq<char>) -> Outcome<int> {
    match raw_field(s) {
        Outcome::Parsed { used, val } => if 1 <= val <= 12 {
            Outcome::Parsed { used, val }
        } else {
            Outcome::Failed { err: FailKind::Month }
        },
        f => f,
    }
}

/// Outcome of the year field at the head of `s`: exactly four digits,
/// read verbatim with no range restriction.
pub open spec fn year_field(s: Seq<char>) -> Outcome<int> {
    if s.len() < 4 {
        Outcome::Failed { err: FailKind::NoMatch { at: 0 } }
    } else if !(is_digit(s[0]) && is_digit(s[1]) && is_digit(s[2]) && is_digit(s[3])) {
        Outcome::Failed { err: FailKind::IntParse { at: 0 } }
    } else {
        Outcome::Parsed {
            used: 4,
            val: ((digit_val(s[0]) * 10 + digit_val(s[1])) * 10 + digit_val(s[2])) * 10
                + digit_val(s[3]),
        }
    }
}

/// Characters the separator at the head of `s` consumes: one `/`, `-` or
/// `.`, or the whole run of whitespace.
pub open spec fn sep_len(s: Seq<char>) -> int {
    if s.len() >= 1 && (s[0] == '/' || s[0] == '-' || s[0] == '.') {
        1
    } else {
        space_run(s)
    }
}

/// Outcome of the separator at the head of `s`.
pub open spec fn separator_outcome(s: Seq<char>) -> Outcome<()> {
    if sep_len(s) > 0 {
        Outcome::Parsed { used: sep_len(s), val: () }
    } else {
        Outcome::Failed { err: FailKind::NoMatch { at: 0 } }
    }
}

/// Outcome of day, separator, month at the head of `s`.
pub open spec fn dm_fields(s: Seq<char>) -> Outcome<(int, int)> {
    match day_field(s) {
        Outcome::Parsed { used: u1, val: d } => match separator_outcome(s.skip(u1)) {
            Outcome::Parsed { used: u2, .. } => match month_field(s.skip(u1 + u2)) {
                Outcome::Parsed { used: u3, val: m } => Outcome::Parsed {
                    used: u1 + u2 + u3,
                    val: (d, m),
                },
                Outcome::Failed { err } => Outcome::Failed { err: fail_at(err, u1 + u2) },
            },
            Outcome::Failed { err } => Outcome::Failed { err: fail_at(err, u1) },
        },
        Outcome::Failed { err } => Outcome::Failed { err },
    }
}

/// Outcome of month, separator, day at the head of `s`.
pub open spec fn md_fields(s: Seq<char>) -> Outcome<(int, int)> {
    match month_field(s) {
        Outcome::Parsed { used: u1, val: m } => match separator_outcome(s.skip(u1)) {
            Outcome::Parsed { used: u2, .. } => match day_field(s.skip(u1 + u2)) {
                Outcome::Parsed { used: u3, val: d } => Outcome::Parsed {
                    used: u1 + u2 + u3,
                    val: (m, d),
                },
                Outcome::Failed { err } => Outcome::Failed { err: fail_at(err, u1 + u2) },
            },
            Outcome::Failed { err } => Outcome::Failed { err: fail_at(err, u1) },
        },
        Outcome::Failed { err } => Outcome::Failed { err },
    }
}

/// Outcome of day, separator, month, separator, year at the head of `s`.
pub open spec fn dmy_fields(s: Seq<char>) -> Outcome<(int, int, int)> {
    match dm_fields(s) {
        Outcome::Parsed { used: u1, val: (d, m) } => match separator_outcome(s.skip(u1)) {
            Outcome::Parsed { used: u2, .. } => match year_field(s.skip(u1 + u2)) {
                Outcome::Parsed { used: u3, val: y } => Outcome::Parsed {
                    used: u1 + u2 + u3,
                    val: (d, m, y),
                },
                Outcome::Failed { err } => Outcome::Failed { err: fail_at(err, u1 + u2) },
            },
            Outcome::Failed { err } => Outcome::Failed { err: fail_at(err, u1) },
        },
        Outcome::Failed { err } => Outcome::Failed { err },
    }
}

/// Outcome of month, separator, day, separator, year at the head of `s`.
pub open spec fn mdy_fields(s: Seq<char>) -> Outcome<(int, int, int)> {
    match md_fields(s) {
        Outcome::Parsed { used: u1, val: (m, d) } => match separator_outcome(s.skip(u1)) {
            Outcome::Parsed { used: u2, .. } => match year_field(s.skip(u1 + u2)) {
                Outcome::Parsed { used: u3, val: y } => Outcome::Parsed {
                    used: u1 + u2 + u3,
                    val: (m, d, y),
                },
                Outcome::Failed { err } => Outcome::Failed { err: fail_at(err, u1 + u2) },
            },
            Outcome::Failed { err } => Outcome::Failed { err: fail_at(err, u1) },
        },
        Outcome::Failed { err } => Outcome::Failed { err },
    }
}

/// Outcome of year, separator, month, separator, day at the head of `s`.
pub open spec fn ymd_fields(s: Seq<char>) -> Outcome<(int, int, int)> {
    match year_field(s) {
        Outcome::Parsed { used: u1, val: y } => match separator_outcome(s.skip(u1)) {
            Outcome::Parsed { used: u2, .. } => match month_field(s.skip(u1 + u2)) {
                Outcome::Parsed { used: u3, val: m } => match separator_outcome(
                    s.skip(u1 + u2 + u3),
                ) {
                    Outcome::Parsed { used: u4, .. } => match day_field(s.skip(u1 + u2 + u3 + u4)) {
                        Outcome::Parsed { used: u5, val: d } => Outcome::Parsed {
                            used: u1 + u2 + u3 + u4 + u5,
                            val: (y, m, d),
                        },
                        Outcome::Failed { err } => Outcome::Failed {
                            err: fail_at(err, u1 + u2 + u3 + u4),
                        },
                    },
                    Outcome::Failed { err } => Outcome::Failed { err: fail_at(err, u1 + u2 + u3) },
                },
                Outcome::Failed { err } => Outcome::Failed { err: fail_at(err, u1 + u2) },
            },
            Outcome::Failed { err } => Outcome::Failed { err: fail_at(err, u1) },
        },
        Outcome::Failed { err } => Outcome::Failed { err },
    }
}

/// The calendar date named by the triple, when it exists.
pub open spec fn assemble_opt(y: int, m: int, d: int) -> Option<Ymd> {
    if valid_ymd(Ymd { y, m, d }) {
        Some(Ymd { y, m, d })
    } else {
        None
    }
}

/// Recognizes either one or two digits of a day part, preferring two.
///
/// Accepts numbers in the range `1..=31`, otherwise fails with
/// [`Error::DayOutOfRange`].
pub fn dd<'a>(input: &'a str) -> (r: IResult<'a, u32>)
    ensures
        res_matches_u32(input@, r, day_field(input@)),
{
    match field(input) {
        Ok((rem, v)) => {
            if 1 <= v && v <= 31 {
                Ok((rem, v))
            } else {
                Err(Error::DayOutOfRange)
            }
        },
        Err(e) => Err(e),
    }
}

/// Recognizes either one or two digits of a month part, preferring two.
///
/// Accepts numbers in the range `1..=12`, otherwise fails with
/// [`Error::MonthOutOfRange`].
pub fn mm<'a>(input: &'a str) -> (r: IResult<'a, u32>)
    ensures
        res_matches_u32(input@, r, month_field(input@)),
{
    match field(input) {
        Ok((rem, v)) => {
            if 1 <= v && v <= 12 {
                Ok((rem, v))
            } else {
                Err(Error::MonthOutOfRange)
            }
        },
        Err(e) => Err(e),
    }
}

/// Recognizes exactly four digits of a year part, read verbatim:
/// any four-digit sequence is accepted, leading zeros included.
pub fn y4<'a>(input: &'a str) -> (r: IResult<'a, u32>)
    ensures
        res_matches_u32(input@, r, year_field(input@)),
        r matches Ok((_, v)) ==> v < 10000,
{
    let n: usize = input.unicode_len();
    if n < 4 {
        proof {
            assert(input@.skip(0) =~= input@);
        }
        return Err(Error::NoMatch(input));
    }
    let c0: char = input.get_char(0);
    let c1: char = input.get_char(1);
    let c2: char = input.get_char(2);
    let c3: char = input.get_char(3);
    if !(is_digit_exec(c0) && is_digit_exec(c1) && is_digit_exec(c2) && is_digit_exec(c3)) {
        proof {
            assert(input@.skip(0) =~= input@);
        }
        return Err(Error::ParseInt(input));
    }
    let v: u32 = ((((c0 as u32) - 48) * 10 + ((c1 as u32) - 48)) * 10 + ((c2 as u32) - 48)) * 10 + (
    (c3 as u32) - 48);
    Ok((input.substring_char(4, n), v))
}

/// Recognizes a separator of numeric date parts: one of `/`, `-`, `.`,
/// or a run of whitespace.
pub fn numeric_date_parts_separator<'a>(input: &'a str) -> (r: IResult<'a, ()>)
    ensures
        res_matches_unit(input@, r, separator_outcome(input@)),
{
    let n: usize = input.unicode_len();
    if n >= 1 {
        let c0: char = input.get_char(0);
        if c0 == '/' || c0 == '-' || c0 == '.' {
            return Ok((input.substring_char(1, n), ()));
        }
    }
    let k: usize = scan_space_run(input);
    if k > 0 {
        Ok((input.substring_char(k, n), ()))
    } else {
        proof {
            assert(input@.skip(0) =~= input@);
        }
        Err(Error::NoMatch(input))
    }
}

/// Outcome of the day-only parser: the day field alone, completed to a
/// date by the current month and year of `t`.
pub open spec fn dd_only_outcome(s: Seq<char>, t: Ymd) -> Outcome<Option<Ymd>> {
    match day_field(s) {
        Outcome::Parsed { used, val: d } => Outcome::Parsed {
            used,
            val: assemble_opt(t.y, t.m, d),
        },
        Outcome::Failed { err } => Outcome::Failed { err },
    }
}

/// Outcome of the day-month parser, completed to a date by the current
/// year of `t`.
pub open spec fn dd_mm_only_outcome(s: Seq<char>, t: Ymd) -> Outcome<Option<Ymd>> {
    match dm_fields(s) {
        Outcome::Parsed { used, val: (d, m) } => Outcome::Parsed {
            used,
            val: assemble_opt(t.y, m, d),
        },
        Outcome::Failed { err } => Outcome::Failed { err },
    }
}

/// Outcome of the month-day parser, completed to a date by the current
/// year of `t`.
pub open spec fn mm_dd_only_outcome(s: Seq<char>, t: Ymd) -> Outcome<Option<Ymd>> {
    match md_fields(s) {
        Outcome::Parsed { used, val: (m, d) } => Outcome::Parsed {
            used,
            val: assemble_opt(t.y, m, d),
        },
        Outcome::Failed { err } => Outcome::Failed { err },
    }
}

/// Outcome of the year-month-day composite parser.
pub open spec fn y4_mm_dd_outcome(s: Seq<char>) -> Outcome<Option<Ymd>> {
    match ymd_fields(s) {
        Outcome::Parsed { used, val: (y, m, d) } => Outcome::Parsed {
            used,
            val: assemble_opt(y, m, d),
        },
        Outcome::Failed { err } => Outcome::Failed { err },
    }
}

/// Outcome of the day-month-year composite parser.
pub open spec fn dd_mm_y4_outcome(s: Seq<char>) -> Outcome<Option<Ymd>> {
    match dmy_fields(s) {
        Outcome::Parsed { used, val: (d, m, y) } => Outcome::Parsed {
            used,
            val: assemble_opt(y, m, d),
        },
        Outcome::Failed { err } => Outcome::Failed { err },
    }
}

/// Outcome of the month-day-year composite parser.
pub open spec fn mm_dd_y4_outcome(s: Seq<char>) -> Outcome<Option<Ymd>> {
    match mdy_fields(s) {
        Outcome::Parsed { used, val: (m, d, y) } => Outcome::Parsed {
            used,
            val: assemble_opt(y, m, d),
        },
        Outcome::Failed { err } => Outcome::Failed { err },
    }
}

/// Recognizes the day and month parts separated by the
/// [`numeric_date_parts_separator`], using the [`dd`] and [`mm`] parsers.
pub fn dd_mm<'a>(input: &'a str) -> (r: IResult<'a, (u32, u32)>)
    ensures
        res_matches_pair(input@, r, dm_fields(input@)),
{
    let (rem1, d) = match dd(input) {
        Ok(p) => p,
        Err(e) => {
            return Err(e);
        },
    };
    let (rem2, _sep) = match numeric_date_parts_separator(rem1) {
        Ok(p) => p,
        Err(e) => {
            proof {
                let u1: int = day_field(input@)->used;
                lemma_err_at(input@, u1, e, separator_outcome(input@.skip(u1))->err);
            }
            return Err(e);
        },
    };
    let (rem3, m) = match mm(rem2) {
        Ok(p) => p,
        Err(e) => {
            proof {
                let u1: int = day_field(input@)->used;
                let u2: int = separator_outcome(input@.skip(u1))->used;
                lemma_skip_skip(input@, u1, u2);
                lemma_err_at(input@, u1 + u2, e, month_field(input@.skip(u1 + u2))->err);
            }
            return Err(e);
        },
    };
    proof {
        let u1: int = day_field(input@)->used;
        let u2: int = separator_outcome(input@.skip(u1))->used;
        lemma_skip_skip(input@, u1, u2);
        let u3: int = month_field(input@.skip(u1 + u2))->used;
        lemma_skip_skip(input@, u1 + u2, u3);
    }
    Ok((rem3, (d, m)))
}

/// Recognizes the month and day parts separated by the
/// [`numeric_date_parts_separator`], using the [`mm`] and [`dd`] parsers.
pub fn mm_dd<'a>(input: &'a str) -> (r: IResult<'a, (u32, u32)>)
    ensures
        res_matches_pair(input@, r, md_fields(input@)),
{
    let (rem1, m) = match mm(input) {
        Ok(p) => p,
        Err(e) => {
            return Err(e);
        },
    };
    let (rem2, _sep) = match numeric_date_parts_separator(rem1) {
        Ok(p) => p,
        Err(e) => {
            proof {
                let u1: int = month_field(input@)->used;
                lemma_err_at(input@, u1, e, separator_outcome(input@.skip(u1))->err);
            }
            return Err(e);
        },
    };
    let (rem3, d) = match dd(rem2) {
        Ok(p) => p,
        Err(e) => {
            proof {
                let u1: int = month_field(input@)->used;
                let u2: int = separator_outcome(input@.skip(u1))->used;
                lemma_skip_skip(input@, u1, u2);
                lemma_err_at(input@, u1 + u2, e, day_field(input@.skip(u1 + u2))->err);
            }
            return Err(e);
        },
    };
    proof {
        let u1: int = month_field(input@)->used;
        let u2: int = separator_outcome(input@.skip(u1))->used;
        lemma_skip_skip(input@, u1, u2);
        let u3: int = day_field(input@.skip(u1 + u2))->used;
        lemma_skip_skip(input@, u1 + u2, u3);
    }
    Ok((rem3, (m, d)))
}

/// Recognizes either one or two digits of a day part and completes it to
/// a date with the month and year of `today`, returning an absent date
/// when that day does not exist in `today`'s month.
pub fn dd_only_on<'a>(input: &'a str, today: Date) -> (r: IResult<'a, Option<Date>>)
    requires
        today.valid(),
    ensures
        res_matches_opt_date(input@, r, dd_only_outcome(input@, today@)),
{
    let (rem, d) = match dd(input) {
        Ok(p) => p,
        Err(e) => {
            return Err(e);
        },
    };
    Ok((rem, Date::from_ymd_opt(today.year(), today.month(), d)))
}

/// Recognizes either one or two digits of a day part and returns the date
/// with that day in the current local month and year if it exists,
/// otherwise an absent date.
pub fn dd_only<'a>(input: &'a str) -> (r: IResult<'a, Option<Date>>)
    ensures
        exists|t: Ymd|
            valid_ymd(t) && res_matches_opt_date(input@, r, dd_only_outcome(input@, t)),
        r matches Ok((rem, od)) ==> day_field(input@) matches Outcome::Parsed { used, val }
            && rem@ == input@.skip(used) && (od matches Some(dt) ==> dt.valid() && dt@.d == val),
        r matches Err(e) ==> day_field(input@) matches Outcome::Failed { err } && err_matches(
            input@,
            e,
            err,
        ),
{
    let (today, _wd) = clock::current_date();
    let r = dd_only_on(input, today);
    proof {
        assert(valid_ymd(today@) && res_matches_opt_date(
            input@,
            r,
            dd_only_outcome(input@, today@),
        ));
    }
    r
}

/// Recognizes the day and month parts separated by the
/// [`numeric_date_parts_separator`] and completes them to a date with the
/// year of `today`, returning an absent date when the combination does
/// not exist.
pub fn dd_mm_only_on<'a>(input: &'a str, today: Date) -> (r: IResult<'a, Option<Date>>)
    requires
        today.valid(),
    ensures
        res_matches_opt_date(input@, r, dd_mm_only_outcome(input@, today@)),
{
    let (rem, p) = match dd_mm(input) {
        Ok(p) => p,
        Err(e) => {
            return Err(e);
        },
    };
    Ok((rem, Date::from_ymd_opt(today.year(), p.1, p.0)))
}

/// Recognizes the day and month parts separated by the
/// [`numeric_date_parts_separator`] and returns the date with that day
/// and month in the current local year if it exists, otherwise an absent
/// date.
pub fn dd_mm_only<'a>(input: &'a str) -> (r: IResult<'a, Option<Date>>)
    ensures
        exists|t: Ymd|
            valid_ymd(t) && res_matches_opt_date(input@, r, dd_mm_only_outcome(input@, t)),
        r matches Ok((rem, od)) ==> dm_fields(input@) matches Outcome::Parsed { used, val }
            && rem@ == input@.skip(used) && (od matches Some(dt) ==> dt.valid() && dt@.d == val.0
            && dt@.m == val.1),
        r matches Err(e) ==> dm_fields(input@) matches Outcome::Failed { err } && err_matches(
            input@,
            e,
            err,
        ),
{
    let (today, _wd) = clock::current_date();
    let r = dd_mm_only_on(input, today);
    proof {
        assert(valid_ymd(today@) && res_matches_opt_date(
            input@,
            r,
            dd_mm_only_outcome(input@, today@),
        ));
    }
    r
}

/// Recognizes the month and day parts separated by the
/// [`numeric_date_parts_separator`] and completes them to a date with the
/// year of `today`, returning an absent date when the combination does
/// not exist.
pub fn mm_dd_only_on<'a>(input: &'a str, today: Date) -> (r: IResult<'a, Option<Date>>)
    requires
        today.valid(),
    ensures
        res_matches_opt_date(input@, r, mm_dd_only_outcome(input@, today@)),
{
    let (rem, p) = match mm_dd(input) {
        Ok(p) => p,
        Err(e) => {
            return Err(e);
        },
    };
    Ok((rem, Date::from_ymd_opt(today.year(), p.0, p.1)))
}

/// Recognizes the month and day parts separated by the
/// [`numeric_date_parts_separator`] and returns the date with that day
/// and month in the current local year if it exists, otherwise an absent
/// date.
pub fn mm_dd_only<'a>(input: &'a str) -> (r: IResult<'a, Option<Date>>)
    ensures
        exists|t: Ymd|
            valid_ymd(t) && res_matches_opt_date(input@, r, mm_dd_only_outcome(input@, t)),
        r matches Ok((rem, od)) ==> md_fields(input@) matches Outcome::Parsed { used, val }
            && rem@ == input@.skip(used) && (od matches Some(dt) ==> dt.valid() && dt@.m == val.0
            && dt@.d == val.1),
        r matches Err(e) ==> md_fields(input@) matches Outcome::Failed { err } && err_matches(
            input@,
            e,
            err,
        ),
{
    let (today, _wd) = clock::current_date();
    let r = mm_dd_only_on(input, today);
    proof {
        assert(valid_ymd(today@) && res_matches_opt_date(
            input@,
            r,
            mm_dd_only_outcome(input@, today@),
        ));
    }
    r
}

/// Recognizes the year, month and day parts separated by the
/// [`numeric_date_parts_separator`] and returns the date with those parts
/// if it exists, otherwise an absent date.
pub fn y4_mm_dd<'a>(input: &'a str) -> (r: IResult<'a, Option<Date>>)
    ensures
        res_matches_opt_date(input@, r, y4_mm_dd_outcome(input@)),
{
    let (rem1, y) = match y4(input) {
        Ok(p) => p,
        Err(e) => {
            return Err(e);
        },
    };
    let (rem2, _sep1) = match numeric_date_parts_separator(rem1) {
        Ok(p) => p,
        Err(e) => {
            proof {
                let u1: int = year_field(input@)->used;
                lemma_err_at(input@, u1, e, separator_outcome(input@.skip(u1))->err);
            }
            return Err(e);
        },
    };
    let (rem3, m) = match mm(rem2) {
        Ok(p) => p,
        Err(e) => {
            proof {
                let u1: int = year_field(input@)->used;
                let u2: int = separator_outcome(input@.skip(u1))->used;
                lemma_skip_skip(input@, u1, u2);
                lemma_err_at(input@, u1 + u2, e, month_field(input@.skip(u1 + u2))->err);
            }
            return Err(e);
        },
    };
    let (rem4, _sep2) = match numeric_date_parts_separator(rem3) {
        Ok(p) => p,
        Err(e) => {
            proof {
                let u1: int = year_field(input@)->used;
                let u2: int = separator_outcome(input@.skip(u1))->used;
                lemma_skip_skip(input@, u1, u2);
                let u3: int = month_field(input@.skip(u1 + u2))->used;
                lemma_skip_skip(input@, u1 + u2, u3);
                lemma_err_at(input@, u1 + u2 + u3, e, separator_outcome(
                    input@.skip(u1 + u2 + u3),
                )->err);
            }
            return Err(e);
        },
    };
    let (rem5, d) = match dd(rem4) {
        Ok(p) => p,
        Err(e) => {
            proof {
                let u1: int = year_field(input@)->used;
                let u2: int = separator_outcome(input@.skip(u1))->used;
                lemma_skip_skip(input@, u1, u2);
                let u3: int = month_field(input@.skip(u1 + u2))->used;
                lemma_skip_skip(input@, u1 + u2, u3);
                let u4: int = separator_outcome(input@.skip(u1 + u2 + u3))->used;
                lemma_skip_skip(input@, u1 + u2 + u3, u4);
                lemma_err_at(input@, u1 + u2 + u3 + u4, e, day_field(
                    input@.skip(u1 + u2 + u3 + u4),
                )->err);
            }
            return Err(e);
        },
    };
    proof {
        let u1: int = year_field(input@)->used;
        let u2: int = separator_outcome(input@.skip(u1))->used;
        lemma_skip_skip(input@, u1, u2);
        let u3: int = month_field(input@.skip(u1 + u2))->used;
        lemma_skip_skip(input@, u1 + u2, u3);
        let u4: int = separator_outcome(input@.skip(u1 + u2 + u3))->used;
        lemma_skip_skip(input@, u1 + u2 + u3, u4);
        let u5: int = day_field(input@.skip(u1 + u2 + u3 + u4))->used;
        lemma_skip_skip(input@, u1 + u2 + u3 + u4, u5);
    }
    Ok((rem5, Date::from_ymd_opt(y as i32, m, d)))
}

/// Recognizes the day, month and year parts separated by the
/// [`numeric_date_parts_separator`] and returns the date with those parts
/// if it exists, otherwise an absent date.
pub fn dd_mm_y4<'a>(input: &'a str) -> (r: IResult<'a, Option<Date>>)
    ensures
        res_matches_opt_date(input@, r, dd_mm_y4_outcome(input@)),
{
    let (rem1, p) = match dd_mm(input) {
        Ok(p) => p,
        Err(e) => {
            return Err(e);
        },
    };
    let (rem2, _sep) = match numeric_date_parts_separator(rem1) {
        Ok(q) => q,
        Err(e) => {
            proof {
                let u1: int = dm_fields(input@)->used;
                lemma_err_at(input@, u1, e, separator_outcome(input@.skip(u1))->err);
            }
            return Err(e);
        },
    };
    let (rem3, y) = match y4(rem2) {
        Ok(q) => q,
        Err(e) => {
            proof {
                let u1: int = dm_fields(input@)->used;
                let u2: int = separator_outcome(input@.skip(u1))->used;
                lemma_skip_skip(input@, u1, u2);
                lemma_err_at(input@, u1 + u2, e, year_field(input@.skip(u1 + u2))->err);
            }
            return Err(e);
        },
    };
    proof {
        let u1: int = dm_fields(input@)->used;
        let u2: int = separator_outcome(input@.skip(u1))->used;
        lemma_skip_skip(input@, u1, u2);
        let u3: int = year_field(input@.skip(u1 + u2))->used;
        lemma_skip_skip(input@, u1 + u2, u3);
    }
    Ok((rem3, Date::from_ymd_opt(y as i32, p.1, p.0)))
}

/// Recognizes the month, day and year parts separated by the
/// [`numeric_date_parts_separator`] and returns the date with those parts
/// if it exists, otherwise an absent date.
pub fn mm_dd_y4<'a>(input: &'a str) -> (r: IResult<'a, Option<Date>>)
    ensures
        res_matches_opt_date(input@, r, mm_dd_y4_outcome(input@)),
{
    let (rem1, p) = match mm_dd(input) {
        Ok(p) => p,
        Err(e) => {
            return Err(e);
        },
    };
    let (rem2, _sep) = match numeric_date_parts_separator(rem1) {
        Ok(q) => q,
        Err(e) => {
            proof {
                let u1: int = md_fields(input@)->used;
                lemma_err_at(input@, u1, e, separator_outcome(input@.skip(u1))->err);
            }
            return Err(e);
        },
    };
    let (rem3, y) = match y4(rem2) {
        Ok(q) => q,
        Err(e) => {
            proof {
                let u1: int = md_fields(input@)->used;
                let u2: int = separator_outcome(input@.skip(u1))->used;
                lemma_skip_skip(input@, u1, u2);
                lemma_err_at(input@, u1 + u2, e, year_field(input@.skip(u1 + u2))->err);
            }
            return Err(e);
        },
    };
    proof {
        let u1: int = md_fields(input@)->used;
        let u2: int = separator_outcome(input@.skip(u1))->used;
        lemma_skip_skip(input@, u1, u2);
        let u3: int = year_field(input@.skip(u1 + u2))->used;
        lemma_skip_skip(input@, u1 + u2, u3);
    }
    Ok((rem3, Date::from_ymd_opt(y as i32, p.0, p.1)))
}

/// Recognizes the one-or-two digit numeric field at the head of the
/// input, before any range check.
fn field<'a>(input: &'a str) -> (r: IResult<'a, u32>)
    ensures
        res_matches_u32(input@, r, raw_field(input@)),
        r matches Ok((_, v)) ==> v < 100,
{
    let n: usize = input.unicode_len();
    if n == 0 {
        proof {
            assert(input@.skip(0) =~= input@);
        }
        return Err(Error::NoMatch(input));
    }
    let c0: char = input.get_char(0);
    if !is_digit_exec(c0) {
        proof {
            assert(input@.skip(0) =~= input@);
        }
        return Err(Error::ParseInt(input));
    }
    let d0: u32 = (c0 as u32) - 48;
    if n >= 2 {
        let c1: char = input.get_char(1);
        if is_digit_exec(c1) {
            let d1: u32 = (c1 as u32) - 48;
            return Ok((input.substring_char(2, n), d0 * 10 + d1));
        }
    }
    Ok((input.substring_char(1, n), d0))
}

} // verus!
