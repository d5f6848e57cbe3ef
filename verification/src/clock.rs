//! The clock collaborator: the only place the library reads the current
//! local date, and the only calls into the `chrono` crate.
//!
//! Nothing can be promised about which day the clock reports, so each
//! reading states only what holds of every possible answer: the date is
//! real and its year lies well inside the range where a few days can be
//! stepped in either direction. Every recognizer whose value depends on
//! "today" also exists in a variant taking the day as an argument, and
//! that variant carries the exact contract.

use chrono::Datelike;
use vstd::prelude::*;

use crate::date::Date;
use crate::date::Weekday;
use crate::date::Ymd;
use crate::date::valid_ymd;
use crate::date::year_in_step_range;

verus! {

/// Relies on `chrono::Local::now` and `chrono::NaiveDate`: a `NaiveDate`
/// is a real calendar date by construction, its year stays within about
/// plus or minus 262,000, and `num_days_from_monday` is below 7.
#[verifier::external_body]
fn now_parts() -> (r: (i32, u32, u32, u32))
    ensures
        valid_ymd(Ymd { y: r.0 as int, m: r.1 as int, d: r.2 as int }),
        year_in_step_range(r.0 as int),
        r.3 < 7,
{
    let now = chrono::Local::now().date_naive();
    (now.year(), now.month(), now.day(), now.weekday().num_days_from_monday())
}

/// Relies on `chrono::NaiveDate::checked_add_days` on today's date: when
/// it returns a date at all, that date is real and within chrono's year
/// range.
#[verifier::external_body]
fn now_plus_parts(n: u64) -> (r: Option<(i32, u32, u32)>)
    ensures
        r matches Some(p) ==> valid_ymd(Ymd { y: p.0 as int, m: p.1 as int, d: p.2 as int })
            && year_in_step_range(p.0 as int),
{
    match chrono::Local::now().date_naive().checked_add_days(chrono::Days::new(n)) {
        Some(d) => Some((d.year(), d.month(), d.day())),
        None => None,
    }
}

/// Relies on `chrono::NaiveDate::checked_sub_days` on today's date: when
/// it returns a date at all, that date is real and within chrono's year
/// range.
#[verifier::external_body]
fn now_minus_parts(n: u64) -> (r: Option<(i32, u32, u32)>)
    ensures
        r matches Some(p) ==> valid_ymd(Ymd { y: p.0 as int, m: p.1 as int, d: p.2 as int })
            && year_in_step_range(p.0 as int),
{
    match chrono::Local::now().date_naive().checked_sub_days(chrono::Days::new(n)) {
        Some(d) => Some((d.year(), d.month(), d.day())),
        None => None,
    }
}

/// Today's date and its weekday, read from the local clock.
pub fn current_date() -> (r: (Date, Weekday))
    ensures
        r.0.valid(),
        year_in_step_range(r.0@.y),
{
    let (y, m, d, w) = now_parts();
    let dt: Date = Date::from_ymd_opt(y, m, d).unwrap();
    let wd: Weekday = Weekday::from_ord(w);
    (dt, wd)
}

/// The date `n` days after today, or `None` when it falls outside the
/// clock's calendar range.
pub fn today_plus_days(n: u64) -> (r: Option<Date>)
    ensures
        r matches Some(dt) ==> dt.valid() && year_in_step_range(dt@.y),
{
    match now_plus_parts(n) {
        Some((y, m, d)) => Some(Date::from_ymd_opt(y, m, d).unwrap()),
        None => None,
    }
}

/// The date `n` days before today, or `None` when it falls outside the
/// clock's calendar range.
pub fn today_minus_days(n: u64) -> (r: Option<Date>)
    ensures
        r matches Some(dt) ==> dt.valid() && year_in_step_range(dt@.y),
{
    match now_minus_parts(n) {
        Some((y, m, d)) => Some(Date::from_ymd_opt(y, m, d).unwrap()),
        None => None,
    }
}

} // verus!
