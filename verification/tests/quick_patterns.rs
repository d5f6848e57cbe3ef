use chrono::Datelike;

use date_parsers::date::Date;
use date_parsers::error::Error;
use date_parsers::quick::{backward_from_now, bundle, forward_from_now};

fn ymd(d: &Date) -> (i32, u32, u32) {
    (d.year(), d.month(), d.day())
}

fn now_plus(n: u64) -> (i32, u32, u32) {
    let d = chrono::Local::now()
        .date_naive()
        .checked_add_days(chrono::Days::new(n))
        .unwrap();
    (d.year(), d.month(), d.day())
}

fn now_minus(n: u64) -> (i32, u32, u32) {
    let d = chrono::Local::now()
        .date_naive()
        .checked_sub_days(chrono::Days::new(n))
        .unwrap();
    (d.year(), d.month(), d.day())
}

#[test]
fn forward_accepts_spaced_and_bare_figures() {
    let (rem, d) = forward_from_now("+ 42").unwrap();
    assert_eq!(rem, "");
    assert_eq!(ymd(&d), now_plus(42));
    let (rem, d) = forward_from_now("+1").unwrap();
    assert_eq!(rem, "");
    assert_eq!(ymd(&d), now_plus(1));
    let (rem, d) = forward_from_now("+\t42 rest").unwrap();
    assert_eq!(rem, " rest");
    assert_eq!(ymd(&d), now_plus(42));
}

#[test]
fn backward_accepts_spaced_and_bare_figures() {
    let (rem, d) = backward_from_now("- 1").unwrap();
    assert_eq!(rem, "");
    assert_eq!(ymd(&d), now_minus(1));
    let (rem, d) = backward_from_now("-123").unwrap();
    assert_eq!(rem, "");
    assert_eq!(ymd(&d), now_minus(123));
}

#[test]
fn a_leading_sign_selects_the_quick_pattern() {
    // "+10" belongs to the forward pattern; a bare "10" belongs to the
    // day-only recognizer of a locale bundle and is refused here.
    let (rem, d) = forward_from_now("+10").unwrap();
    assert_eq!(rem, "");
    assert_eq!(ymd(&d), now_plus(10));
    assert_eq!(bundle("10"), Err(Error::NoMatch("10")));
}

#[test]
fn sign_is_required() {
    assert_eq!(forward_from_now("42"), Err(Error::NoMatch("42")));
    assert_eq!(backward_from_now("+42"), Err(Error::NoMatch("+42")));
    assert_eq!(forward_from_now(""), Err(Error::NoMatch("")));
}

#[test]
fn digits_are_required_after_the_sign() {
    assert_eq!(forward_from_now("+ x"), Err(Error::NoMatch("x")));
    assert_eq!(backward_from_now("-"), Err(Error::NoMatch("")));
}

#[test]
fn an_oversized_figure_is_an_integer_parse_failure() {
    // One digit more than u64::MAX can hold.
    assert_eq!(
        forward_from_now("+ 99999999999999999999"),
        Err(Error::ParseInt("99999999999999999999"))
    );
    assert_eq!(
        forward_from_now("+ 18446744073709551616"),
        Err(Error::ParseInt("18446744073709551616"))
    );
}

#[test]
fn a_figure_beyond_the_calendar_range_is_a_failure() {
    // u64::MAX days fits the figure but no calendar date: the parse
    // succeeds and the date construction reports a mismatch instead of
    // panicking.
    assert_eq!(
        forward_from_now("+ 18446744073709551615"),
        Err(Error::NoMatch("+ 18446744073709551615"))
    );
}

#[test]
fn bundle_tries_forward_then_backward() {
    let (rem, d) = bundle("+\t42").unwrap();
    assert_eq!(rem, "");
    assert_eq!(ymd(&d), now_plus(42));
    let (rem, d) = bundle("-   1").unwrap();
    assert_eq!(rem, "");
    assert_eq!(ymd(&d), now_minus(1));
    let (rem, d) = bundle("-123").unwrap();
    assert_eq!(rem, "");
    assert_eq!(ymd(&d), now_minus(123));
}

#[test]
fn bundle_reports_the_backward_failure_when_both_fail() {
    assert_eq!(bundle("10"), Err(Error::NoMatch("10")));
    assert_eq!(bundle("x"), Err(Error::NoMatch("x")));
}
