//! The calendar model: validated dates, weekdays, and day-stepping.
//!
//! A [`Date`] is a (year, month, day) triple that exists only after the
//! combination has been checked against month lengths and leap years; an
//! invalid combination is represented as absence, never as a malformed
//! value.

use vstd::prelude::*;

verus! {

/// A (year, month, day) triple at the specification level.
pub struct Ymd {
    pub y: int,
    pub m: int,
    pub d: int,
}

/// Whether `y` is a leap year of the proleptic Gregorian calendar.
pub open spec fn is_leap_year(y: int) -> bool {
    y % 4 == 0 && (y % 100 != 0 || y % 400 == 0)
}

/// Number of days of month `m` of year `y`.
pub open spec fn days_in_month(y: int, m: int) -> int
    recommends
        1 <= m <= 12,
{
    if m == 2 {
        if is_leap_year(y) {
            29
        } else {
            28
        }
    } else if m == 4 || m == 6 || m == 9 || m == 11 {
        30
    } else {
        31
    }
}

/// Whether the triple names a real calendar date.
pub open spec fn valid_ymd(t: Ymd) -> bool {
    &&& 1 <= t.m <= 12
    &&& 1 <= t.d <= days_in_month(t.y, t.m)
}

/// The day after `t`.
pub open spec fn succ_ymd(t: Ymd) -> Ymd {
    if t.d < days_in_month(t.y, t.m) {
        Ymd { y: t.y, m: t.m, d: t.d + 1 }
    } else if t.m < 12 {
        Ymd { y: t.y, m: t.m + 1, d: 1 }
    } else {
        Ymd { y: t.y + 1, m: 1, d: 1 }
    }
}

/// The day before `t`.
pub open spec fn pred_ymd(t: Ymd) -> Ymd {
    if t.d > 1 {
        Ymd { y: t.y, m: t.m, d: t.d - 1 }
    } else if t.m > 1 {
        Ymd { y: t.y, m: t.m - 1, d: days_in_month(t.y, t.m - 1) }
    } else {
        Ymd { y: t.y - 1, m: 12, d: 31 }
    }
}

/// The date `delta` days away from `t` (negative `delta` steps backwards).
pub open spec fn shift_ymd(t: Ymd, delta: int) -> Ymd
    decreases
            (if delta >= 0 {
                delta
            } else {
                -delta
            }),
{
    if delta > 0 {
        shift_ymd(succ_ymd(t), delta - 1)
    } else if delta < 0 {
        shift_ymd(pred_ymd(t), delta + 1)
    } else {
        t
    }
}

pub proof fn lemma_succ_ymd_valid(t: Ymd)
    requires
        valid_ymd(t),
    ensures
        valid_ymd(succ_ymd(t)),
{
}

pub proof fn lemma_pred_ymd_valid(t: Ymd)
    requires
        valid_ymd(t),
    ensures
        valid_ymd(pred_ymd(t)),
{
}

/// Stepping one more day forward appends one `succ_ymd`.
pub proof fn lemma_shift_ymd_succ(t: Ymd, n: int)
    requires
        n >= 0,
    ensures
        shift_ymd(t, n + 1) == succ_ymd(shift_ymd(t, n)),
    decreases n,
{
    if n == 0 {
        assert(shift_ymd(t, 1) == shift_ymd(succ_ymd(t), 0));
        assert(shift_ymd(succ_ymd(t), 0) == succ_ymd(t));
    } else {
        lemma_shift_ymd_succ(succ_ymd(t), n - 1);
        assert(shift_ymd(t, n + 1) == shift_ymd(succ_ymd(t), n));
        assert(shift_ymd(t, n) == shift_ymd(succ_ymd(t), n - 1));
    }
}

/// Stepping one more day backward appends one `pred_ymd`.
pub proof fn lemma_shift_ymd_pred(t: Ymd, n: int)
    requires
        n <= 0,
    ensures
        shift_ymd(t, n - 1) == pred_ymd(shift_ymd(t, n)),
    decreases -n,
{
    if n == 0 {
        assert(shift_ymd(t, -1) == shift_ymd(pred_ymd(t), 0));
        assert(shift_ymd(pred_ymd(t), 0) == pred_ymd(t));
    } else {
        lemma_shift_ymd_pred(pred_ymd(t), n + 1);
        assert(shift_ymd(t, n - 1) == shift_ymd(pred_ymd(t), n));
        assert(shift_ymd(t, n) == shift_ymd(pred_ymd(t), n + 1));
    }
}

/// A day of the week, Monday-based.
#[derive(Clone, Copy, Debug, PartialEq, Eq, Structural)]
pub enum Weekday {
    Mon,
    Tue,
    Wed,
    Thu,
    Fri,
    Sat,
    Sun,
}

impl Weekday {
    /// Days from Monday: 0 for Monday up to 6 for Sunday.
    pub open spec fn ord_spec(self) -> int {
        match self {
            Weekday::Mon => 0,
            Weekday::Tue => 1,
            Weekday::Wed => 2,
            Weekday::Thu => 3,
            Weekday::Fri => 4,
            Weekday::Sat => 5,
            Weekday::Sun => 6,
        }
    }

    /// The weekday `w` days after Monday.
    pub fn from_ord(w: u32) -> (r: Weekday)
        requires
            w < 7,
        ensures
            r.ord_spec() == w as int,
    {
        match w {
            0 => Weekday::Mon,
            1 => Weekday::Tue,
            2 => Weekday::Wed,
            3 => Weekday::Thu,
            4 => Weekday::Fri,
            5 => Weekday::Sat,
            _ => Weekday::Sun,
        }
    }

    /// Days from Monday: 0 for Monday up to 6 for Sunday.
    pub fn ord(self) -> (r: u32)
        ensures
            r as int == self.ord_spec(),
    {
        match self {
            Weekday::Mon => 0,
            Weekday::Tue => 1,
            Weekday::Wed => 2,
            Weekday::Thu => 3,
            Weekday::Fri => 4,
            Weekday::Sat => 5,
            Weekday::Sun => 6,
        }
    }
}

/// A validated calendar date. Values of this type always name a real
/// calendar date: the constructors refuse every other combination.
#[derive(Clone, Copy, Debug, PartialEq, Eq, Structural)]
pub struct Date {
    y: i32,
    m: u32,
    d: u32,
}

impl View for Date {
    type V = Ymd;

    closed spec fn view(&self) -> Ymd {
        Ymd { y: self.y as int, m: self.m as int, d: self.d as int }
    }
}

/// Year bound under which a `Date` can be stepped a few days in either
/// direction without arithmetic overflow. It comfortably encloses every
/// year the clock can report.
pub open spec fn year_in_step_range(y: int) -> bool {
    -400000 <= y <= 400000
}

impl Date {
    /// The date is real: its (year, month, day) triple passes the
    /// month-length and leap-year check.
    pub open spec fn valid(self) -> bool {
        valid_ymd(self@)
    }

    /// Builds the date if the triple names a real calendar date, and
    /// returns `None` otherwise.
    pub fn from_ymd_opt(y: i32, m: u32, d: u32) -> (r: Option<Date>)
        ensures
            valid_ymd(Ymd { y: y as int, m: m as int, d: d as int }) ==> (r matches Some(dt)
                && dt@ == Ymd { y: y as int, m: m as int, d: d as int }),
            !valid_ymd(Ymd { y: y as int, m: m as int, d: d as int }) ==> r is None,
            r matches Some(dt) ==> dt.valid(),
    {
        if 1 <= m && m <= 12 && 1 <= d && d <= days_in_month_exec(y, m) {
            Some(Date { y, m, d })
        } else {
            None
        }
    }

    /// The year, which may be negative (proleptic Gregorian).
    pub fn year(&self) -> (r: i32)
        ensures
            r as int == self@.y,
    {
        self.y
    }

    /// The month, `1..=12` on a valid date.
    pub fn month(&self) -> (r: u32)
        ensures
            r as int == self@.m,
    {
        self.m
    }

    /// The day of month, `1..=31` on a valid date.
    pub fn day(&self) -> (r: u32)
        ensures
            r as int == self@.d,
    {
        self.d
    }

    /// The day after `self`.
    pub fn next_day(self) -> (r: Date)
        requires
            self.valid(),
            self@.y < i32::MAX,
        ensures
            r@ == succ_ymd(self@),
            r.valid(),
    {
        proof {
            lemma_succ_ymd_valid(self@);
        }
        if self.d < days_in_month_exec(self.y, self.m) {
            Date { y: self.y, m: self.m, d: self.d + 1 }
        } else if self.m < 12 {
            Date { y: self.y, m: self.m + 1, d: 1 }
        } else {
            Date { y: self.y + 1, m: 1, d: 1 }
        }
    }

    /// The day before `self`.
    pub fn prev_day(self) -> (r: Date)
        requires
            self.valid(),
            self@.y > i32::MIN,
        ensures
            r@ == pred_ymd(self@),
            r.valid(),
    {
        proof {
            lemma_pred_ymd_valid(self@);
        }
        if self.d > 1 {
            Date { y: self.y, m: self.m, d: self.d - 1 }
        } else if self.m > 1 {
            Date { y: self.y, m: self.m - 1, d: days_in_month_exec(self.y, self.m - 1) }
        } else {
            Date { y: self.y - 1, m: 12, d: 31 }
        }
    }

    /// The date `delta` days away from `self`, for small steps.
    pub fn shift_days(self, delta: i32) -> (r: Date)
        requires
            self.valid(),
            year_in_step_range(self@.y),
            -366 <= delta <= 366,
        ensures
            r@ == shift_ymd(self@, delta as int),
            r.valid(),
    {
        let mut cur: Date = self;
        if delta >= 0 {
            let mut i: i32 = 0;
            while i < delta
                invariant
                    0 <= i <= delta <= 366,
                    self.valid(),
                    year_in_step_range(self@.y),
                    cur.valid(),
                    cur@ == shift_ymd(self@, i as int),
                    cur@.y <= self@.y + i,
                decreases delta - i,
            {
                proof {
                    lemma_shift_ymd_succ(self@, i as int);
                }
                cur = cur.next_day();
                i = i + 1;
            }
            cur
        } else {
            let mut i: i32 = 0;
            while i > delta
                invariant
                    delta <= i <= 0,
                    -366 <= delta,
                    self.valid(),
                    year_in_step_range(self@.y),
                    cur.valid(),
                    cur@ == shift_ymd(self@, i as int),
                    cur@.y >= self@.y + i,
                decreases i - delta,
            {
                proof {
                    lemma_shift_ymd_pred(self@, i as int);
                }
                cur = cur.prev_day();
                i = i - 1;
            }
            cur
        }
    }
}

/// Number of days of month `m` of year `y`.
pub fn days_in_month_exec(y: i32, m: u32) -> (r: u32)
    requires
        1 <= m <= 12,
    ensures
        r as int == days_in_month(y as int, m as int),
{
    if m == 2 {
        if leap_year(y) {
            29
        } else {
            28
        }
    } else if m == 4 || m == 6 || m == 9 || m == 11 {
        30
    } else {
        31
    }
}

/// Whether `y` is a leap year.
pub fn leap_year(y: i32) -> (r: bool)
    ensures
        r == is_leap_year(y as int),
{
    let n: u64 = if y >= 0 {
        y as u64
    } else {
        (-(y as i64)) as u64
    };
    proof {
        if y < 0 {
            lemma_neg_mod_zero(y as int, 4);
            lemma_neg_mod_zero(y as int, 100);
            lemma_neg_mod_zero(y as int, 400);
        }
    }
    n % 4 == 0 && (n % 100 != 0 || n % 400 == 0)
}

/// A number and its negation are divisible by the same divisors.
proof fn lemma_neg_mod_zero(a: int, k: int)
    requires
        k > 0,
    ensures
        ((-a) % k == 0) <==> (a % k == 0),
{
    if a % k == 0 {
        vstd::arithmetic::div_mod::lemma_fundamental_div_mod(a, k);
        assert(-a == (-(a / k)) * k) by (nonlinear_arith)
            requires
                a == k * (a / k),
        ;
        vstd::arithmetic::div_mod::lemma_mod_multiples_basic(-(a / k), k);
    }
    if (-a) % k == 0 {
        vstd::arithmetic::div_mod::lemma_fundamental_div_mod(-a, k);
        assert(a == (-((-a) / k)) * k) by (nonlinear_arith)
            requires
                -a == k * ((-a) / k),
        ;
        vstd::arithmetic::div_mod::lemma_mod_multiples_basic(-((-a) / k), k);
    }
}

} // verus!
