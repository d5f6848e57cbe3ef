//! Quick relative patterns: `+ <days>` and `- <days>`, a number of days
//! forward or backward from today.

use vstd::prelude::*;
use vstd::string::StrSliceExecFns;

use crate::clock;
use crate::date::Date;
use crate::error::Error;
use crate::error::IResult;
use crate::numeric::day_field;
use crate::scan::FailKind;
use crate::scan::Outcome;
use crate::scan::digit_run;
use crate::scan::digit_val;
use crate::scan::err_matches;
use crate::scan::is_digit;
use crate::scan::lemma_digit_run_digits;
use crate::scan::lemma_skip_skip;
use crate::scan::scan_digit_run;
use crate::scan::scan_space_run;
use crate::scan::space_run;

verus! {

/// The number written by the first `k` digits of `s`, most significant
/// first.
pub open spec fn dec_val_prefix(s: Seq<char>, k: int) -> int
    decreases k,
{
    if k <= 0 {
        0
    } else {
        dec_val_prefix(s, k - 1) * 10 + digit_val(s[k - 1])
    }
}

/// A digit prefix never writes a negative number.
pub proof fn lemma_dec_val_nonneg(s: Seq<char>, k: int)
    requires
        k <= s.len(),
        forall|j: int| 0 <= j < k ==> is_digit(s[j]),
    ensures
        dec_val_prefix(s, k) >= 0,
    decreases k,
{
    if k > 0 {
        lemma_dec_val_nonneg(s, k - 1);
    }
}

/// Outcome of a `sign`, optional whitespace and a run of digits at the
/// head of `s`: the written number of days. The digits must fit an
/// unsigned 64-bit number; a longer figure is an integer-parse failure,
/// as is a missing digit run.
pub open spec fn sign_pattern(s: Seq<char>, sign: char) -> Outcome<int> {
    if s.len() == 0 || s[0] != sign {
        Outcome::Failed { err: FailKind::NoMatch { at: 0 } }
    } else {
        let sp = space_run(s.skip(1));
        let tail = s.skip(1 + sp);
        let k = digit_run(tail);
        if k == 0 {
            Outcome::Failed { err: FailKind::NoMatch { at: 1 + sp } }
        } else if dec_val_prefix(tail, k) > u64::MAX {
            Outcome::Failed { err: FailKind::IntParse { at: 1 + sp } }
        } else {
            Outcome::Parsed { used: 1 + sp + k, val: dec_val_prefix(tail, k) }
        }
    }
}

/// Outcome of the `+ <days>` pattern.
pub open spec fn plus_pattern(s: Seq<char>) -> Outcome<int> {
    sign_pattern(s, '+')
}

/// Outcome of the `- <days>` pattern.
pub open spec fn minus_pattern(s: Seq<char>) -> Outcome<int> {
    sign_pattern(s, '-')
}

/// A leading sign decides which of the quick pattern and the day-only
/// recognizer can apply, whatever order an alternation tries them in:
/// input starting with `+` is never taken by the day field, and input
/// starting with a digit is never taken by the forward pattern.
pub proof fn lemma_sign_and_day_disjoint(s: Seq<char>)
    requires
        s.len() > 0,
    ensures
        s[0] == '+' ==> day_field(s) is Failed,
        is_digit(s[0]) ==> plus_pattern(s) is Failed,
{
}

/// Recognizes `sign`, optional whitespace and the days figure.
fn sign_days<'a>(input: &'a str, sign: char) -> (r: IResult<'a, u64>)
    ensures
        match r {
            Ok((rem, v)) => sign_pattern(input@, sign) matches Outcome::Parsed { used, val }
                && v as int == val && rem@ == input@.skip(used),
            Err(e) => sign_pattern(input@, sign) matches Outcome::Failed { err } && err_matches(
                input@,
                e,
                err,
            ),
        },
{
    let n: usize = input.unicode_len();
    if n == 0 {
        proof {
            assert(input@.skip(0) =~= input@);
        }
        return Err(Error::NoMatch(input));
    }
    let c0: char = input.get_char(0);
    if c0 != sign {
        proof {
            assert(input@.skip(0) =~= input@);
        }
        return Err(Error::NoMatch(input));
    }
    let rem1: &'a str = input.substring_char(1, n);
    let sp: usize = scan_space_run(rem1);
    let n1: usize = rem1.unicode_len();
    let rem2: &'a str = rem1.substring_char(sp, n1);
    proof {
        lemma_skip_skip(input@, 1, sp as int);
    }
    let n2: usize = rem2.unicode_len();
    let k: usize = scan_digit_run(rem2);
    if k == 0 {
        proof {
            assert(rem2@.skip(0) =~= rem2@);
        }
        return Err(Error::NoMatch(rem2));
    }
    proof {
        lemma_digit_run_digits(rem2@);
    }
    let mut acc: u128 = 0;
    let mut ovf: bool = false;
    let mut i: usize = 0;
    while i < k
        invariant
            i <= k,
            k <= n2,
            n2 == rem2@.len(),
            k as int == digit_run(rem2@),
            forall|j: int| 0 <= j < k ==> is_digit(rem2@[j]),
            !ovf ==> acc == dec_val_prefix(rem2@, i as int) && acc <= u64::MAX,
            ovf ==> dec_val_prefix(rem2@, i as int) > u64::MAX,
        decreases k - i,
    {
        let c: char = rem2.get_char(i);
        let d: u128 = ((c as u32) - 48) as u128;
        proof {
            lemma_dec_val_nonneg(rem2@, i as int);
        }
        if !ovf {
            let nacc: u128 = acc * 10 + d;
            if nacc > 0xffff_ffff_ffff_ffffu128 {
                ovf = true;
                acc = 0;
            } else {
                acc = nacc;
            }
        }
        i = i + 1;
    }
    if ovf {
        return Err(Error::ParseInt(rem2));
    }
    let v: u64 = acc as u64;
    let rem3: &'a str = rem2.substring_char(k, n2);
    proof {
        lemma_skip_skip(input@, 1 + sp as int, k as int);
    }
    Ok((rem3, v))
}

/// Recognizes the `+ <days>` pattern and returns the date that many days
/// after today, failing when the figure does not fit 64 bits or the date
/// falls outside the clock's calendar range.
pub fn forward_from_now<'a>(input: &'a str) -> (r: IResult<'a, Date>)
    ensures
        r matches Ok((rem, dt)) ==> (plus_pattern(input@) matches Outcome::Parsed { used, .. }
            && rem@ == input@.skip(used) && dt.valid()),
        r matches Err(e) ==> (plus_pattern(input@) matches Outcome::Failed { err } && err_matches(
            input@,
            e,
            err,
        )) || (plus_pattern(input@) is Parsed && (e matches Error::NoMatch(rest) && rest@
            == input@)),
{
    let (rem, nd) = match sign_days(input, '+') {
        Ok(p) => p,
        Err(e) => {
            return Err(e);
        },
    };
    match clock::today_plus_days(nd) {
        Some(dt) => Ok((rem, dt)),
        None => Err(Error::NoMatch(input)),
    }
}

/// Recognizes the `- <days>` pattern and returns the date that many days
/// before today, failing when the figure does not fit 64 bits or the
/// date falls outside the clock's calendar range.
pub fn backward_from_now<'a>(input: &'a str) -> (r: IResult<'a, Date>)
    ensures
        r matches Ok((rem, dt)) ==> (minus_pattern(input@) matches Outcome::Parsed { used, .. }
            && rem@ == input@.skip(used) && dt.valid()),
        r matches Err(e) ==> (minus_pattern(input@) matches Outcome::Failed { err } && err_matches(
            input@,
            e,
            err,
        )) || (minus_pattern(input@) is Parsed && (e matches Error::NoMatch(rest) && rest@
            == input@)),
{
    let (rem, nd) = match sign_days(input, '-') {
        Ok(p) => p,
        Err(e) => {
            return Err(e);
        },
    };
    match clock::today_minus_days(nd) {
        Some(dt) => Ok((rem, dt)),
        None => Err(Error::NoMatch(input)),
    }
}

/// Tries [`forward_from_now`] and then [`backward_from_now`], so that
/// both the `+ <days>` and `- <days>` patterns are recognized; when both
/// fail, the failure of the backward pattern is the one reported.
pub fn bundle<'a>(input: &'a str) -> (r: IResult<'a, Date>)
    ensures
        r matches Ok((rem, dt)) ==> dt.valid() && ((plus_pattern(input@) matches Outcome::Parsed {
            used,
            ..
        } && rem@ == input@.skip(used)) || (minus_pattern(input@) matches Outcome::Parsed {
            used,
            ..
        } && rem@ == input@.skip(used))),
        r matches Err(e) ==> (minus_pattern(input@) matches Outcome::Failed { err } && err_matches(
            input@,
            e,
            err,
        )) || (minus_pattern(input@) is Parsed && (e matches Error::NoMatch(rest) && rest@
            == input@)),
{
    match forward_from_now(input) {
        Ok(p) => {
            return Ok(p);
        },
        Err(_) => {},
    }
    backward_from_now(input)
}

} // verus!
