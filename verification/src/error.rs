//! The unified failure type shared by every recognizer, and the result
//! alias all of them return.

use vstd::prelude::*;

verus! {

/// Failure of a recognizer. One variant per failure kind:
/// range violations on the day and month fields, a reserved kind for a
/// calendar date that does not exist, a field whose characters are not
/// decimal digits, and the generic "this pattern does not apply here"
/// outcome. The last two carry the remaining input at the point of failure.
#[derive(Debug, PartialEq, Eq)]
pub enum Error<'a> {
    /// The day field held a number outside `1..=31`.
    DayOutOfRange,
    /// The month field held a number outside `1..=12`.
    MonthOutOfRange,
    /// Reserved: a parsed (year, month, day) combination names no real
    /// calendar date. Composite numeric recognizers never raise it — they
    /// succeed with an absent date instead. In the bundles' model an
    /// alternative whose date turns out absent counts as failing with
    /// this kind before alternation moves on to the next alternative.
    NonExistentDate,
    /// A field's characters could not be read as an unsigned integer.
    ParseInt(&'a str),
    /// No alternative matched at this point of the input.
    NoMatch(&'a str),
}

/// What every recognizer returns: the unconsumed remainder and the parsed
/// value, or a typed failure.
pub type IResult<'a, O> = Result<(&'a str, O), Error<'a>>;

} // verus!
