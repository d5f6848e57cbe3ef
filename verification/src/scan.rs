//! Character-level scanning: the specification model every recognizer is
//! verified against, and the small executable primitives they share.
//!
//! A recognizer on input `s` either consumes a prefix of `used` characters
//! and produces a value, or fails with a typed kind. The model states both
//! sides as a total function of the input, so each executable recognizer
//! carries a single `ensures` clause relating its result to the model.

use vstd::prelude::*;
use vstd::string::StrSliceExecFns;

use crate::date::Date;
use crate::date::Weekday;
use crate::date::Ymd;
use crate::error::Error;
use crate::error::IResult;

verus! {

/// Model of a failure: the kind, and for the kinds that carry the
/// remaining input, how many characters were consumed before the failing
/// recognizer started.
pub enum FailKind {
    Day,
    Month,
    NonExistent,
    IntParse { at: int },
    NoMatch { at: int },
}

/// Model of a recognition outcome on some input: a parsed value after
/// `used` consumed characters, or a typed failure.
pub enum Outcome<V> {
    Parsed { used: int, val: V },
    Failed { err: FailKind },
}

/// Moves a failure's position forward by `off` characters: how a failure
/// of a sub-recognizer reads from the enclosing input.
pub open spec fn fail_at(err: FailKind, off: int) -> FailKind {
    match err {
        FailKind::IntParse { at } => FailKind::IntParse { at: at + off },
        FailKind::NoMatch { at } => FailKind::NoMatch { at: at + off },
        _ => err,
    }
}

/// The executable failure `e`, returned on input `s`, is the failure the
/// model names.
pub open spec fn err_matches(s: Seq<char>, e: Error, err: FailKind) -> bool {
    match err {
        FailKind::Day => e is DayOutOfRange,
        FailKind::Month => e is MonthOutOfRange,
        FailKind::NonExistent => e is NonExistentDate,
        FailKind::IntParse { at } => e matches Error::ParseInt(rest) && 0 <= at <= s.len()
            && rest@ == s.skip(at),
        FailKind::NoMatch { at } => e matches Error::NoMatch(rest) && 0 <= at <= s.len() && rest@
            == s.skip(at),
    }
}

/// The executable result `r` on input `s` is the modelled outcome `m`,
/// for recognizers producing a number.
pub open spec fn res_matches_u32(s: Seq<char>, r: IResult<u32>, m: Outcome<int>) -> bool {
    match r {
        Ok((rem, v)) => m matches Outcome::Parsed { used, val } && v as int == val && 0 <= used
            <= s.len() && rem@ == s.skip(used),
        Err(e) => m matches Outcome::Failed { err } && err_matches(s, e, err),
    }
}

/// The executable result `r` on input `s` is the modelled outcome `m`,
/// for recognizers producing a pair of numbers.
pub open spec fn res_matches_pair(s: Seq<char>, r: IResult<(u32, u32)>, m: Outcome<(int, int)>)
    -> bool {
    match r {
        Ok((rem, v)) => m matches Outcome::Parsed { used, val } && v.0 as int == val.0
            && v.1 as int == val.1 && 0 <= used <= s.len() && rem@ == s.skip(used),
        Err(e) => m matches Outcome::Failed { err } && err_matches(s, e, err),
    }
}

/// The executable result `r` on input `s` is the modelled outcome `m`,
/// for recognizers producing no value.
pub open spec fn res_matches_unit(s: Seq<char>, r: IResult<()>, m: Outcome<()>) -> bool {
    match r {
        Ok((rem, _)) => m matches Outcome::Parsed { used, .. } && 0 <= used <= s.len() && rem@
            == s.skip(used),
        Err(e) => m matches Outcome::Failed { err } && err_matches(s, e, err),
    }
}

/// The executable result `r` on input `s` is the modelled outcome `m`,
/// for recognizers producing a date.
pub open spec fn res_matches_date(s: Seq<char>, r: IResult<Date>, m: Outcome<Ymd>) -> bool {
    match r {
        Ok((rem, dt)) => m matches Outcome::Parsed { used, val } && dt@ == val && dt.valid() && 0
            <= used <= s.len() && rem@ == s.skip(used),
        Err(e) => m matches Outcome::Failed { err } && err_matches(s, e, err),
    }
}

/// The executable result `r` on input `s` is the modelled outcome `m`,
/// for recognizers producing a date when it exists and absence when it
/// does not.
pub open spec fn res_matches_opt_date(
    s: Seq<char>,
    r: IResult<Option<Date>>,
    m: Outcome<Option<Ymd>>,
) -> bool {
    match r {
        Ok((rem, od)) => m matches Outcome::Parsed { used, val } && 0 <= used <= s.len() && rem@
            == s.skip(used) && (match (od, val) {
            (Some(dt), Some(t)) => dt@ == t && dt.valid(),
            (None, None) => true,
            _ => false,
        }),
        Err(e) => m matches Outcome::Failed { err } && err_matches(s, e, err),
    }
}

/// The executable result `r` on input `s` is the modelled outcome `m`,
/// for recognizers producing a weekday, modelled by its days from Monday.
pub open spec fn res_matches_weekday(s: Seq<char>, r: IResult<Weekday>, m: Outcome<int>) -> bool {
    match r {
        Ok((rem, w)) => m matches Outcome::Parsed { used, val } && w.ord_spec() == val && 0 <= used
            <= s.len() && rem@ == s.skip(used),
        Err(e) => m matches Outcome::Failed { err } && err_matches(s, e, err),
    }
}

/// Ordered alternation of two outcomes: the first success wins, and when
/// both fail the failure of the last one tried is kept.
pub open spec fn orelse<V>(a: Outcome<V>, b: Outcome<V>) -> Outcome<V> {
    if a is Parsed {
        a
    } else {
        b
    }
}

/// How a bundle reads a composite numeric outcome: a parse that produced
/// an absent date is a failure of that alternative, so alternation moves
/// on and, at the end of the list, reports the date as non-existent.
pub open spec fn to_alt(m: Outcome<Option<Ymd>>) -> Outcome<Ymd> {
    match m {
        Outcome::Parsed { used, val: Some(t) } => Outcome::Parsed { used, val: t },
        Outcome::Parsed { used: _, val: None } => Outcome::Failed { err: FailKind::NonExistent },
        Outcome::Failed { err } => Outcome::Failed { err },
    }
}

/// Outcome of a single case-insensitive word at the head of `s`.
pub open spec fn tag_outcome(s: Seq<char>, lo: Seq<char>, up: Seq<char>) -> Outcome<()> {
    if tag_ci_matches(s, lo, up) {
        Outcome::Parsed { used: lo.len() as int, val: () }
    } else {
        Outcome::Failed { err: FailKind::NoMatch { at: 0 } }
    }
}

/// Skipping twice is skipping once by the sum.
pub proof fn lemma_skip_skip(s: Seq<char>, a: int, b: int)
    requires
        0 <= a,
        0 <= b,
        a + b <= s.len(),
    ensures
        s.skip(a).skip(b) =~= s.skip(a + b),
{
}

/// A failure of a sub-recognizer that started `off` characters into the
/// input reads from the whole input as the same failure moved forward by
/// `off`.
pub proof fn lemma_err_at(s: Seq<char>, off: int, e: Error, err: FailKind)
    requires
        0 <= off <= s.len(),
        err_matches(s.skip(off), e, err),
    ensures
        err_matches(s, e, fail_at(err, off)),
{
    match err {
        FailKind::IntParse { at } => {
            lemma_skip_skip(s, off, at);
        },
        FailKind::NoMatch { at } => {
            lemma_skip_skip(s, off, at);
        },
        _ => {},
    }
}

/// Whether `c` is a decimal digit.
pub open spec fn is_digit(c: char) -> bool {
    48 <= c as int <= 57
}

/// The numeric value of a decimal digit.
pub open spec fn digit_val(c: char) -> int {
    c as int - 48
}

/// Whether `c` is one of the whitespace characters a separator accepts.
pub open spec fn is_space(c: char) -> bool {
    c == ' ' || c == '\t'
}

/// Length of the run of whitespace at the head of `s`.
pub open spec fn space_run(s: Seq<char>) -> int
    decreases s.len(),
{
    if s.len() > 0 && is_space(s[0]) {
        1 + space_run(s.skip(1))
    } else {
        0
    }
}

/// Length of the run of decimal digits at the head of `s`.
pub open spec fn digit_run(s: Seq<char>) -> int
    decreases s.len(),
{
    if s.len() > 0 && is_digit(s[0]) {
        1 + digit_run(s.skip(1))
    } else {
        0
    }
}

/// The whitespace run is exactly the longest all-whitespace prefix.
pub proof fn lemma_space_run(s: Seq<char>, n: int)
    requires
        0 <= n <= s.len(),
        forall|j: int| 0 <= j < n ==> is_space(s[j]),
        n == s.len() || !is_space(s[n]),
    ensures
        space_run(s) == n,
    decreases n,
{
    if n == 0 {
    } else {
        assert(is_space(s[0]));
        assert forall|j: int| 0 <= j < n - 1 implies is_space(s.skip(1)[j]) by {
            assert(s.skip(1)[j] == s[j + 1]);
        }
        if n - 1 < s.skip(1).len() {
            assert(s.skip(1)[n - 1] == s[n]);
        }
        lemma_space_run(s.skip(1), n - 1);
    }
}

/// The digit run is exactly the longest all-digit prefix.
pub proof fn lemma_digit_run(s: Seq<char>, n: int)
    requires
        0 <= n <= s.len(),
        forall|j: int| 0 <= j < n ==> is_digit(s[j]),
        n == s.len() || !is_digit(s[n]),
    ensures
        digit_run(s) == n,
    decreases n,
{
    if n == 0 {
    } else {
        assert(is_digit(s[0]));
        assert forall|j: int| 0 <= j < n - 1 implies is_digit(s.skip(1)[j]) by {
            assert(s.skip(1)[j] == s[j + 1]);
        }
        if n - 1 < s.skip(1).len() {
            assert(s.skip(1)[n - 1] == s[n]);
        }
        lemma_digit_run(s.skip(1), n - 1);
    }
}

/// Every character inside the digit run is a digit.
pub proof fn lemma_digit_run_digits(s: Seq<char>)
    ensures
        0 <= digit_run(s) <= s.len(),
        forall|j: int| 0 <= j < digit_run(s) ==> is_digit(s[j]),
    decreases s.len(),
{
    if s.len() > 0 && is_digit(s[0]) {
        lemma_digit_run_digits(s.skip(1));
        assert forall|j: int| 0 <= j < digit_run(s) implies is_digit(s[j]) by {
            if j > 0 {
                assert(s.skip(1)[j - 1] == s[j]);
            }
        }
    }
}

/// `s` begins with the word whose lowercase form is `lo` and uppercase
/// form is `up`, either form of each character being accepted.
pub open spec fn tag_ci_matches(s: Seq<char>, lo: Seq<char>, up: Seq<char>) -> bool {
    &&& s.len() >= lo.len()
    &&& forall|i: int| 0 <= i < lo.len() ==> s[i] == lo[i] || s[i] == up[i]
}

/// Whether `c` is a decimal digit.
pub fn is_digit_exec(c: char) -> (r: bool)
    ensures
        r == is_digit(c),
{
    let v: u32 = c as u32;
    48 <= v && v <= 57
}

/// Whether `c` is one of the whitespace characters a separator accepts.
pub fn is_space_exec(c: char) -> (r: bool)
    ensures
        r == is_space(c),
{
    c == ' ' || c == '\t'
}

/// Length of the run of whitespace at the head of `input`.
pub fn scan_space_run(input: &str) -> (r: usize)
    ensures
        r as int == space_run(input@),
        r <= input@.len(),
{
    let n: usize = input.unicode_len();
    let mut i: usize = 0;
    loop
        invariant
            i <= n,
            n == input@.len(),
            forall|j: int| 0 <= j < i ==> is_space(input@[j]),
        ensures
            i <= n,
            forall|j: int| 0 <= j < i ==> is_space(input@[j]),
            i == n || !is_space(input@[i as int]),
        decreases n - i,
    {
        if i >= n {
            break ;
        }
        let c: char = input.get_char(i);
        if !is_space_exec(c) {
            break ;
        }
        i = i + 1;
    }
    proof {
        lemma_space_run(input@, i as int);
    }
    i
}

/// Length of the run of decimal digits at the head of `input`.
pub fn scan_digit_run(input: &str) -> (r: usize)
    ensures
        r as int == digit_run(input@),
        r <= input@.len(),
{
    let n: usize = input.unicode_len();
    let mut i: usize = 0;
    loop
        invariant
            i <= n,
            n == input@.len(),
            forall|j: int| 0 <= j < i ==> is_digit(input@[j]),
        ensures
            i <= n,
            forall|j: int| 0 <= j < i ==> is_digit(input@[j]),
            i == n || !is_digit(input@[i as int]),
        decreases n - i,
    {
        if i >= n {
            break ;
        }
        let c: char = input.get_char(i);
        if !is_digit_exec(c) {
            break ;
        }
        i = i + 1;
    }
    proof {
        lemma_digit_run(input@, i as int);
    }
    i
}

/// Recognizes the case-insensitive word given by its lowercase and
/// uppercase forms at the head of `input`, returning the remainder after
/// it, or `None` when the word is not there.
pub fn tag_ci<'a>(input: &'a str, lo: &str, up: &str) -> (r: Option<&'a str>)
    requires
        lo@.len() == up@.len(),
    ensures
        match r {
            Some(rem) => tag_ci_matches(input@, lo@, up@) && rem@ == input@.skip(
                lo@.len() as int,
            ),
            None => !tag_ci_matches(input@, lo@, up@),
        },
{
    let n: usize = input.unicode_len();
    let w: usize = lo.unicode_len();
    if n < w {
        return None;
    }
    let mut i: usize = 0;
    while i < w
        invariant
            i <= w,
            w <= n,
            n == input@.len(),
            w == lo@.len(),
            w == up@.len(),
            forall|j: int| 0 <= j < i ==> input@[j] == lo@[j] || input@[j] == up@[j],
        decreases w - i,
    {
        let c: char = input.get_char(i);
        let cl: char = lo.get_char(i);
        let cu: char = up.get_char(i);
        if c != cl && c != cu {
            return None;
        }
        i = i + 1;
    }
    Some(input.substring_char(w, n))
}

} // verus!
