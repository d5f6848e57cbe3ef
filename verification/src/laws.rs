//! Laws of the numeric recognizers, stated over the specification model:
//! range validation of the day and month fields, interchangeability of
//! the accepted separators, and the field round trip.

use vstd::prelude::*;

use crate::date::Ymd;
use crate::date::valid_ymd;
use crate::numeric::assemble_opt;
use crate::numeric::day_field;
use crate::numeric::dd_mm_y4_outcome;
use crate::numeric::dm_fields;
use crate::numeric::dmy_fields;
use crate::numeric::md_fields;
use crate::numeric::mdy_fields;
use crate::numeric::month_field;
use crate::numeric::raw_field;
use crate::numeric::sep_len;
use crate::numeric::separator_outcome;
use crate::numeric::year_field;
use crate::numeric::ymd_fields;
use crate::scan::FailKind;
use crate::scan::Outcome;
use crate::scan::digit_val;
use crate::scan::is_digit;
use crate::scan::is_space;
use crate::scan::lemma_skip_skip;
use crate::scan::lemma_space_run;

verus! {

/// For every day figure written with two digits, recognition succeeds
/// exactly when the figure is in `1..=31`, consuming both digits and
/// returning the figure itself; any other two-digit figure fails with
/// the day-range kind.
pub proof fn lemma_day_field_two_digits(c0: char, c1: char, rest: Seq<char>)
    requires
        is_digit(c0),
        is_digit(c1),
    ensures
        ({
            let d = digit_val(c0) * 10 + digit_val(c1);
            let s = seq![c0, c1] + rest;
            &&& 1 <= d <= 31 ==> day_field(s) == (Outcome::Parsed { used: 2int, val: d })
            &&& !(1 <= d <= 31) ==> day_field(s) == (Outcome::<int>::Failed { err: FailKind::Day })
        }),
{
    let s = seq![c0, c1] + rest;
    assert(s[0] == c0);
    assert(s[1] == c1);
}

/// For a day figure written with a single digit that no further digit
/// follows, recognition succeeds exactly when the digit is not zero.
pub proof fn lemma_day_field_one_digit(c0: char, rest: Seq<char>)
    requires
        is_digit(c0),
        rest.len() == 0 || !is_digit(rest[0]),
    ensures
        ({
            let d = digit_val(c0);
            let s = seq![c0] + rest;
            &&& 1 <= d ==> day_field(s) == (Outcome::Parsed { used: 1int, val: d })
            &&& d == 0 ==> day_field(s) == (Outcome::<int>::Failed { err: FailKind::Day })
        }),
{
    let s = seq![c0] + rest;
    assert(s[0] == c0);
    if rest.len() > 0 {
        assert(s[1] == rest[0]);
    }
}

/// For every month figure written with two digits, recognition succeeds
/// exactly when the figure is in `1..=12`, consuming both digits and
/// returning the figure itself; any other two-digit figure fails with
/// the month-range kind.
pub proof fn lemma_month_field_two_digits(c0: char, c1: char, rest: Seq<char>)
    requires
        is_digit(c0),
        is_digit(c1),
    ensures
        ({
            let m = digit_val(c0) * 10 + digit_val(c1);
            let s = seq![c0, c1] + rest;
            &&& 1 <= m <= 12 ==> month_field(s) == (Outcome::Parsed { used: 2int, val: m })
            &&& !(1 <= m <= 12) ==> month_field(s) == (Outcome::<int>::Failed { err: FailKind::Month })
        }),
{
    let s = seq![c0, c1] + rest;
    assert(s[0] == c0);
    assert(s[1] == c1);
}

/// For a month figure written with a single digit that no further digit
/// follows, recognition succeeds exactly when the digit is not zero.
pub proof fn lemma_month_field_one_digit(c0: char, rest: Seq<char>)
    requires
        is_digit(c0),
        rest.len() == 0 || !is_digit(rest[0]),
    ensures
        ({
            let m = digit_val(c0);
            let s = seq![c0] + rest;
            &&& 1 <= m ==> month_field(s) == (Outcome::Parsed { used: 1int, val: m })
            &&& m == 0 ==> month_field(s) == (Outcome::<int>::Failed { err: FailKind::Month })
        }),
{
    let s = seq![c0] + rest;
    assert(s[0] == c0);
    if rest.len() > 0 {
        assert(s[1] == rest[0]);
    }
}

/// Round trip: a real (year, month, day) combination whose fields are
/// recognized independently from their digit renderings and then
/// assembled into a calendar date gives back exactly the original
/// numbers.
pub proof fn lemma_round_trip(
    y0: char,
    y1: char,
    y2: char,
    y3: char,
    m0: char,
    m1: char,
    d0: char,
    d1: char,
)
    requires
        is_digit(y0),
        is_digit(y1),
        is_digit(y2),
        is_digit(y3),
        is_digit(m0),
        is_digit(m1),
        is_digit(d0),
        is_digit(d1),
        valid_ymd(
            Ymd {
                y: ((digit_val(y0) * 10 + digit_val(y1)) * 10 + digit_val(y2)) * 10 + digit_val(
                    y3,
                ),
                m: digit_val(m0) * 10 + digit_val(m1),
                d: digit_val(d0) * 10 + digit_val(d1),
            },
        ),
    ensures
        ({
            let yv = ((digit_val(y0) * 10 + digit_val(y1)) * 10 + digit_val(y2)) * 10 + digit_val(
                y3,
            );
            let mv = digit_val(m0) * 10 + digit_val(m1);
            let dv = digit_val(d0) * 10 + digit_val(d1);
            &&& year_field(seq![y0, y1, y2, y3]) == (Outcome::Parsed { used: 4int, val: yv })
            &&& month_field(seq![m0, m1]) == (Outcome::Parsed { used: 2int, val: mv })
            &&& day_field(seq![d0, d1]) == (Outcome::Parsed { used: 2int, val: dv })
            &&& assemble_opt(yv, mv, dv) == Some(Ymd { y: yv, m: mv, d: dv })
        }),
{
    let sy = seq![y0, y1, y2, y3];
    assert(sy[0] == y0 && sy[1] == y1 && sy[2] == y2 && sy[3] == y3);
    let sm = seq![m0, m1];
    assert(sm[0] == m0 && sm[1] == m1);
    let sd = seq![d0, d1];
    assert(sd[0] == d0 && sd[1] == d1);
}

/// One accepted separator run: a single `/`, `-` or `.`, or a nonempty
/// run of whitespace.
pub open spec fn is_sep_run(p: Seq<char>) -> bool {
    ||| (p.len() == 1 && (p[0] == '/' || p[0] == '-' || p[0] == '.'))
    ||| (p.len() >= 1 && (forall|j: int| 0 <= j < p.len() ==> is_space(p[j])))
}

/// The one-or-two digit field reads exactly the digits put before the
/// rest, when the rest cannot extend them.
pub proof fn lemma_raw_field_prefix(a: Seq<char>, t: Seq<char>)
    requires
        1 <= a.len() <= 2,
        forall|j: int| 0 <= j < a.len() ==> is_digit(a[j]),
        a.len() == 1 ==> (t.len() == 0 || !is_digit(t[0])),
    ensures
        raw_field(a + t) == (Outcome::Parsed {
            used: a.len() as int,
            val: if a.len() == 2 {
                digit_val(a[0]) * 10 + digit_val(a[1])
            } else {
                digit_val(a[0])
            },
        }),
        (a + t).skip(a.len() as int) =~= t,
{
    let s = a + t;
    assert(s[0] == a[0]);
    if a.len() == 2 {
        assert(s[1] == a[1]);
    } else {
        if t.len() > 0 {
            assert(s[1] == t[0]);
        }
    }
}

/// The separator reads exactly the separator run put before the rest,
/// when the rest does not begin with more whitespace.
pub proof fn lemma_sep_prefix(p: Seq<char>, t: Seq<char>)
    requires
        is_sep_run(p),
        t.len() == 0 || !is_space(t[0]),
    ensures
        separator_outcome(p + t) == (Outcome::Parsed { used: p.len() as int, val: () }),
        (p + t).skip(p.len() as int) =~= t,
{
    let s = p + t;
    assert(s[0] == p[0]);
    if p.len() == 1 && (p[0] == '/' || p[0] == '-' || p[0] == '.') {
        assert(sep_len(s) == 1);
    } else {
        assert(forall|j: int| 0 <= j < p.len() ==> is_space(s[j]));
        if p.len() < s.len() {
            assert(s[p.len() as int] == t[0]);
        }
        lemma_space_run(s, p.len() as int);
        assert(!(s[0] == '/' || s[0] == '-' || s[0] == '.'));
    }
}

/// The year field reads exactly the four digits put before the rest.
pub proof fn lemma_year_prefix(a: Seq<char>, t: Seq<char>)
    requires
        a.len() == 4,
        forall|j: int| 0 <= j < a.len() ==> is_digit(a[j]),
    ensures
        year_field(a + t) == (Outcome::Parsed {
            used: 4int,
            val: ((digit_val(a[0]) * 10 + digit_val(a[1])) * 10 + digit_val(a[2])) * 10
                + digit_val(a[3]),
        }),
        (a + t).skip(4) =~= t,
{
    let s = a + t;
    assert(s[0] == a[0] && s[1] == a[1] && s[2] == a[2] && s[3] == a[3]);
}

/// Separators never begin with a digit, so a one-digit field followed by
/// a separator is complete.
pub proof fn lemma_sep_not_digit(p: Seq<char>)
    requires
        is_sep_run(p),
    ensures
        !is_digit(p[0]),
{
}

/// The day-month pair reads exactly its two fields around any accepted
/// separator: the parsed numbers and the remainder do not depend on
/// which separator stands between the fields.
pub proof fn lemma_dm_fields_any_separator(da: Seq<char>, p: Seq<char>, ma: Seq<char>, t: Seq<
    char,
>)
    requires
        1 <= da.len() <= 2,
        forall|j: int| 0 <= j < da.len() ==> is_digit(da[j]),
        1 <= ma.len() <= 2,
        forall|j: int| 0 <= j < ma.len() ==> is_digit(ma[j]),
        ma.len() == 1 ==> (t.len() == 0 || !is_digit(t[0])),
        is_sep_run(p),
        1 <= field_val_of(da) <= 31,
        1 <= field_val_of(ma) <= 12,
    ensures
        dm_fields(da + p + ma + t) == (Outcome::Parsed {
            used: da.len() + p.len() + ma.len() as int,
            val: (field_val_of(da), field_val_of(ma)),
        }),
        (da + p + ma + t).skip(da.len() + p.len() + ma.len() as int) =~= t,
{
    let s = da + p + ma + t;
    let t1 = p + (ma + t);
    assert(s =~= da + t1);
    lemma_sep_not_digit(p);
    lemma_raw_field_prefix(da, t1);
    assert(day_field(s) == (Outcome::Parsed { used: da.len() as int, val: field_val_of(da) }));
    assert(s.skip(da.len() as int) =~= t1);
    assert((ma + t)[0] == ma[0]);
    assert(!is_space((ma + t)[0]));
    lemma_sep_prefix(p, ma + t);
    assert(separator_outcome(s.skip(da.len() as int)) == (Outcome::Parsed {
        used: p.len() as int,
        val: (),
    }));
    lemma_raw_field_prefix(ma, t);
    lemma_skip_skip(s, da.len() as int, p.len() as int);
    assert(s.skip(da.len() + p.len() as int) =~= ma + t);
    assert(month_field(s.skip(da.len() + p.len() as int)) == (Outcome::Parsed {
        used: ma.len() as int,
        val: field_val_of(ma),
    }));
    lemma_skip_skip(s, da.len() + p.len() as int, ma.len() as int);
}

/// The month-day pair reads exactly its two fields around any accepted
/// separator.
pub proof fn lemma_md_fields_any_separator(ma: Seq<char>, p: Seq<char>, da: Seq<char>, t: Seq<
    char,
>)
    requires
        1 <= ma.len() <= 2,
        forall|j: int| 0 <= j < ma.len() ==> is_digit(ma[j]),
        1 <= da.len() <= 2,
        forall|j: int| 0 <= j < da.len() ==> is_digit(da[j]),
        da.len() == 1 ==> (t.len() == 0 || !is_digit(t[0])),
        is_sep_run(p),
        1 <= field_val_of(ma) <= 12,
        1 <= field_val_of(da) <= 31,
    ensures
        md_fields(ma + p + da + t) == (Outcome::Parsed {
            used: ma.len() + p.len() + da.len() as int,
            val: (field_val_of(ma), field_val_of(da)),
        }),
        (ma + p + da + t).skip(ma.len() + p.len() + da.len() as int) =~= t,
{
    let s = ma + p + da + t;
    let t1 = p + (da + t);
    assert(s =~= ma + t1);
    lemma_sep_not_digit(p);
    lemma_raw_field_prefix(ma, t1);
    assert(s.skip(ma.len() as int) =~= t1);
    assert((da + t)[0] == da[0]);
    lemma_sep_prefix(p, da + t);
    lemma_raw_field_prefix(da, t);
    lemma_skip_skip(s, ma.len() as int, p.len() as int);
    assert(s.skip(ma.len() + p.len() as int) =~= da + t);
    lemma_skip_skip(s, ma.len() + p.len() as int, da.len() as int);
}

/// The number a one-or-two digit field writes.
pub open spec fn field_val_of(a: Seq<char>) -> int {
    if a.len() == 2 {
        digit_val(a[0]) * 10 + digit_val(a[1])
    } else {
        digit_val(a[0])
    }
}

/// The number a four-digit year field writes.
pub open spec fn year_val_of(a: Seq<char>) -> int {
    ((digit_val(a[0]) * 10 + digit_val(a[1])) * 10 + digit_val(a[2])) * 10 + digit_val(a[3])
}

/// Separator interchangeability for the day-month-year composite: with
/// any accepted separators in both positions, the composite parses the
/// same three numbers and leaves the same remainder.
pub proof fn lemma_dmy_any_separator(
    da: Seq<char>,
    p1: Seq<char>,
    ma: Seq<char>,
    p2: Seq<char>,
    ya: Seq<char>,
    t: Seq<char>,
)
    requires
        1 <= da.len() <= 2,
        forall|j: int| 0 <= j < da.len() ==> is_digit(da[j]),
        1 <= ma.len() <= 2,
        forall|j: int| 0 <= j < ma.len() ==> is_digit(ma[j]),
        ya.len() == 4,
        forall|j: int| 0 <= j < ya.len() ==> is_digit(ya[j]),
        is_sep_run(p1),
        is_sep_run(p2),
        1 <= field_val_of(da) <= 31,
        1 <= field_val_of(ma) <= 12,
    ensures
        dmy_fields(da + p1 + ma + p2 + ya + t) == (Outcome::Parsed {
            used: da.len() + p1.len() + ma.len() + p2.len() + 4int,
            val: (field_val_of(da), field_val_of(ma), year_val_of(ya)),
        }),
        (da + p1 + ma + p2 + ya + t).skip(da.len() + p1.len() + ma.len() + p2.len() + 4int) =~= t,
{
    let s = da + p1 + ma + p2 + ya + t;
    let t2 = p2 + (ya + t);
    assert(s =~= da + p1 + ma + t2);
    lemma_sep_not_digit(p2);
    lemma_dm_fields_any_separator(da, p1, ma, t2);
    let u1: int = da.len() + p1.len() + ma.len() as int;
    assert(s.skip(u1) =~= t2);
    assert((ya + t)[0] == ya[0]);
    lemma_sep_prefix(p2, ya + t);
    lemma_year_prefix(ya, t);
    lemma_skip_skip(s, u1 as int, p2.len() as int);
    assert(s.skip(u1 + p2.len() as int) =~= ya + t);
    lemma_skip_skip(s, u1 + p2.len() as int, 4);
}

/// Substituting one accepted separator for another in a day-month-year
/// date changes neither the assembled calendar date nor the remainder.
pub proof fn lemma_dd_mm_y4_separator_interchange(
    da: Seq<char>,
    p1: Seq<char>,
    ma: Seq<char>,
    p2: Seq<char>,
    q1: Seq<char>,
    q2: Seq<char>,
    ya: Seq<char>,
    t: Seq<char>,
)
    requires
        1 <= da.len() <= 2,
        forall|j: int| 0 <= j < da.len() ==> is_digit(da[j]),
        1 <= ma.len() <= 2,
        forall|j: int| 0 <= j < ma.len() ==> is_digit(ma[j]),
        ya.len() == 4,
        forall|j: int| 0 <= j < ya.len() ==> is_digit(ya[j]),
        is_sep_run(p1),
        is_sep_run(p2),
        is_sep_run(q1),
        is_sep_run(q2),
        1 <= field_val_of(da) <= 31,
        1 <= field_val_of(ma) <= 12,
    ensures
        ({
            let a = dd_mm_y4_outcome(da + p1 + ma + p2 + ya + t);
            let b = dd_mm_y4_outcome(da + q1 + ma + q2 + ya + t);
            &&& a is Parsed
            &&& b is Parsed
            &&& a->val == b->val
            &&& (da + p1 + ma + p2 + ya + t).skip(a->used) == (da + q1 + ma + q2 + ya + t).skip(
                b->used,
            )
        }),
{
    lemma_dmy_any_separator(da, p1, ma, p2, ya, t);
    lemma_dmy_any_separator(da, q1, ma, q2, ya, t);
}

/// Separator interchangeability for the month-day-year composite.
pub proof fn lemma_mdy_any_separator(
    ma: Seq<char>,
    p1: Seq<char>,
    da: Seq<char>,
    p2: Seq<char>,
    ya: Seq<char>,
    t: Seq<char>,
)
    requires
        1 <= ma.len() <= 2,
        forall|j: int| 0 <= j < ma.len() ==> is_digit(ma[j]),
        1 <= da.len() <= 2,
        forall|j: int| 0 <= j < da.len() ==> is_digit(da[j]),
        ya.len() == 4,
        forall|j: int| 0 <= j < ya.len() ==> is_digit(ya[j]),
        is_sep_run(p1),
        is_sep_run(p2),
        1 <= field_val_of(ma) <= 12,
        1 <= field_val_of(da) <= 31,
    ensures
        mdy_fields(ma + p1 + da + p2 + ya + t) == (Outcome::Parsed {
            used: ma.len() + p1.len() + da.len() + p2.len() + 4int,
            val: (field_val_of(ma), field_val_of(da), year_val_of(ya)),
        }),
        (ma + p1 + da + p2 + ya + t).skip(ma.len() + p1.len() + da.len() + p2.len() + 4int) =~= t,
{
    let s = ma + p1 + da + p2 + ya + t;
    let t2 = p2 + (ya + t);
    assert(s =~= ma + p1 + da + t2);
    lemma_sep_not_digit(p2);
    lemma_md_fields_any_separator(ma, p1, da, t2);
    let u1: int = ma.len() + p1.len() + da.len() as int;
    assert(s.skip(u1) =~= t2);
    assert((ya + t)[0] == ya[0]);
    lemma_sep_prefix(p2, ya + t);
    lemma_year_prefix(ya, t);
    lemma_skip_skip(s, u1 as int, p2.len() as int);
    assert(s.skip(u1 + p2.len() as int) =~= ya + t);
    lemma_skip_skip(s, u1 + p2.len() as int, 4);
}

/// Separator interchangeability for the year-month-day composite.
pub proof fn lemma_ymd_any_separator(
    ya: Seq<char>,
    p1: Seq<char>,
    ma: Seq<char>,
    p2: Seq<char>,
    da: Seq<char>,
    t: Seq<char>,
)
    requires
        ya.len() == 4,
        forall|j: int| 0 <= j < ya.len() ==> is_digit(ya[j]),
        1 <= ma.len() <= 2,
        forall|j: int| 0 <= j < ma.len() ==> is_digit(ma[j]),
        1 <= da.len() <= 2,
        forall|j: int| 0 <= j < da.len() ==> is_digit(da[j]),
        da.len() == 1 ==> (t.len() == 0 || !is_digit(t[0])),
        is_sep_run(p1),
        is_sep_run(p2),
        1 <= field_val_of(ma) <= 12,
        1 <= field_val_of(da) <= 31,
    ensures
        ymd_fields(ya + p1 + ma + p2 + da + t) == (Outcome::Parsed {
            used: 4int + p1.len() + ma.len() + p2.len() + da.len(),
            val: (year_val_of(ya), field_val_of(ma), field_val_of(da)),
        }),
        (ya + p1 + ma + p2 + da + t).skip(4int + p1.len() + ma.len() + p2.len() + da.len()) =~= t,
{
    let s = ya + p1 + ma + p2 + da + t;
    let t1 = p1 + (ma + (p2 + (da + t)));
    assert(s =~= ya + t1);
    lemma_year_prefix(ya, t1);
    assert(s.skip(4) =~= t1);
    let t2 = ma + (p2 + (da + t));
    assert((t2)[0] == ma[0]);
    lemma_sep_prefix(p1, t2);
    assert(t1.skip(p1.len() as int) =~= t2);
    lemma_sep_not_digit(p2);
    lemma_raw_field_prefix(ma, p2 + (da + t));
    assert(t2.skip(ma.len() as int) =~= p2 + (da + t));
    assert((da + t)[0] == da[0]);
    lemma_sep_prefix(p2, da + t);
    lemma_raw_field_prefix(da, t);
    lemma_skip_skip(s, 4int, p1.len() as int);
    assert(s.skip(4int + p1.len()) =~= t2);
    lemma_skip_skip(s, 4int + p1.len(), ma.len() as int);
    assert(s.skip(4int + p1.len() + ma.len()) =~= p2 + (da + t));
    lemma_skip_skip(s, 4int + p1.len() + ma.len(), p2.len() as int);
    assert(s.skip(4int + p1.len() + ma.len() + p2.len()) =~= da + t);
    lemma_skip_skip(s, 4int + p1.len() + ma.len() + p2.len(), da.len() as int);
}

} // verus!
