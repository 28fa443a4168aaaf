//! Calendar dates as plain values, with proleptic-Gregorian day numbers.
//!
//! A `Date` is a (year, month, day) triple restricted to years 1..=9999.
//! Day numbers count days since January 1 of year 1 (day 0), which is a
//! Monday in the proleptic Gregorian calendar; they are the basis for the
//! weekday and ISO-week arithmetic of the week model.

use vstd::prelude::*;

verus! {

pub const MIN_YEAR: i32 = 1;

pub const MAX_YEAR: i32 = 9999;

pub open spec fn is_leap_year(y: int) -> bool {
    (y % 4 == 0 && y % 100 != 0) || y % 400 == 0
}

pub open spec fn days_in_month(y: int, m: int) -> int {
    if m == 2 {
        if is_leap_year(y) {
            29
        } else {
            28
        }
    } else if m == 4 || m == 6 || m == 9 || m == 11 {
        30
    } else {
        31
    }
}

/// Days of year `y` that lie strictly before month `m` (so 0 for January).
/// Defined up to m == 13, where it gives the length of the year.
pub open spec fn days_before_month(y: int, m: int) -> int {
    let base: int = if m <= 1 {
        0
    } else if m == 2 {
        31
    } else if m == 3 {
        59
    } else if m == 4 {
        90
    } else if m == 5 {
        120
    } else if m == 6 {
        151
    } else if m == 7 {
        181
    } else if m == 8 {
        212
    } else if m == 9 {
        243
    } else if m == 10 {
        273
    } else if m == 11 {
        304
    } else if m == 12 {
        334
    } else {
        365
    };
    if m > 2 && is_leap_year(y) {
        base + 1
    } else {
        base
    }
}

/// Days that lie strictly before January 1 of year `y`, counting from
/// January 1 of year 1 (so 0 for year 1).
pub open spec fn days_before_year(y: int) -> int {
    365 * (y - 1) + (y - 1) / 4 - (y - 1) / 100 + (y - 1) / 400
}

pub open spec fn year_length(y: int) -> int {
    if is_leap_year(y) {
        366
    } else {
        365
    }
}

pub open spec fn valid_ymd(y: int, m: int, d: int) -> bool {
    &&& MIN_YEAR <= y <= MAX_YEAR
    &&& 1 <= m <= 12
    &&& 1 <= d <= days_in_month(y, m)
}

/// The day number of a date: days since January 1 of year 1.
pub open spec fn day_number_of(y: int, m: int, d: int) -> int {
    days_before_year(y) + days_before_month(y, m) + d - 1
}

#[derive(Clone, Copy, Debug, PartialEq, Eq, Structural)]
pub struct Date {
    pub year: i32,
    pub month: u8,
    pub day: u8,
}

impl Date {
    pub open spec fn wf(self) -> bool {
        valid_ymd(self.year as int, self.month as int, self.day as int)
    }

    pub open spec fn spec_day_number(self) -> int {
        day_number_of(self.year as int, self.month as int, self.day as int)
    }

    /// Builds a date, rejecting any (year, month, day) outside the calendar.
    pub fn new(year: i32, month: u8, day: u8) -> (r: Option<Date>)
        ensures
            r is Some <==> valid_ymd(year as int, month as int, day as int),
            r is Some ==> r.unwrap() == (Date { year, month, day }),
    {
        if MIN_YEAR <= year && year <= MAX_YEAR && 1 <= month && month <= 12 && 1 <= day
            && day <= days_in_month_exec(year, month) {
            Some(Date { year, month, day })
        } else {
            None
        }
    }

    pub fn day_number(&self) -> (n: i64)
        requires
            self.wf(),
        ensures
            n == self.spec_day_number(),
            0 <= n < 3652059,
    {
        proof {
            lemma_day_number_bounds(self.year as int, self.month as int, self.day as int);
        }
        let y: i64 = (self.year - 1) as i64;
        let before_year: i64 = 365 * y + y / 4 - y / 100 + y / 400;
        before_year + days_before_month_exec(self.year, self.month) + (self.day as i64) - 1
    }
}

pub fn days_in_month_exec(y: i32, m: u8) -> (r: u8)
    requires
        1 <= m <= 12,
    ensures
        r == days_in_month(y as int, m as int),
{
    if m == 2 {
        if (y % 4 == 0 && y % 100 != 0) || y % 400 == 0 {
            29
        } else {
            28
        }
    } else if m == 4 || m == 6 || m == 9 || m == 11 {
        30
    } else {
        31
    }
}

fn days_before_month_exec(y: i32, m: u8) -> (r: i64)
    requires
        1 <= m <= 13,
    ensures
        r == days_before_month(y as int, m as int),
{
    let base: i64 = match m {
        1 => 0,
        2 => 31,
        3 => 59,
        4 => 90,
        5 => 120,
        6 => 151,
        7 => 181,
        8 => 212,
        9 => 243,
        10 => 273,
        11 => 304,
        12 => 334,
        _ => 365,
    };
    if m > 2 && ((y % 4 == 0 && y % 100 != 0) || y % 400 == 0) {
        base + 1
    } else {
        base
    }
}

/// Every valid date's day number lies in [0, 3652059).
pub proof fn lemma_day_number_bounds(y: int, m: int, d: int)
    requires
        valid_ymd(y, m, d),
    ensures
        0 <= day_number_of(y, m, d) < 3652059,
{
    assert(0 <= (y - 1) / 4 <= (y - 1));
    assert(0 <= (y - 1) / 100 <= (y - 1) / 4);
    assert(0 <= (y - 1) / 400 <= (y - 1) / 100);
}

/// For positive n and k, the quotient n/k grows by one exactly at the
/// multiples of k.
proof fn lemma_div_step(n: int, k: int)
    requires
        n >= 1,
        k >= 1,
    ensures
        n / k == (n - 1) / k + if n % k == 0 {
            1int
        } else {
            0int
        },
{
    vstd::arithmetic::div_mod::lemma_fundamental_div_mod(n, k);
    let q = n / k;
    let r = n % k;
    if r == 0 {
        assert(n - 1 == (q - 1) * k + (k - 1)) by (nonlinear_arith)
            requires
                n == k * q + r,
                r == 0,
        ;
        vstd::arithmetic::div_mod::lemma_fundamental_div_mod_converse(n - 1, k, q - 1, k - 1);
    } else {
        assert(n - 1 == q * k + (r - 1)) by (nonlinear_arith)
            requires
                n == k * q + r,
        ;
        vstd::arithmetic::div_mod::lemma_fundamental_div_mod_converse(n - 1, k, q, r - 1);
    }
}

proof fn lemma_mod_is_zero_equiv(n: int, k: int)
    requires
        n >= 0,
        k >= 1,
    ensures
        n % k == 0 <==> exists|q: int| n == #[trigger] (q * k),
{
    vstd::arithmetic::div_mod::lemma_fundamental_div_mod(n, k);
    if n % k == 0 {
        assert(n == (n / k) * k) by (nonlinear_arith)
            requires
                n == k * (n / k) + n % k,
                n % k == 0,
        ;
    }
    if exists|q: int| n == #[trigger] (q * k) {
        let q = choose|q: int| n == #[trigger] (q * k);
        vstd::arithmetic::div_mod::lemma_fundamental_div_mod_converse(n, k, q, 0);
    }
}

/// One year adds 365 or 366 days to the count before it, according to
/// whether it is a leap year.
pub proof fn lemma_days_before_year_succ(y: int)
    requires
        y >= 1,
    ensures
        days_before_year(y + 1) == days_before_year(y) + year_length(y),
{
    lemma_div_step(y, 4);
    lemma_div_step(y, 100);
    lemma_div_step(y, 400);
    assert(y % 400 == 0 ==> y % 100 == 0 && y % 4 == 0) by {
        if y % 400 == 0 {
            lemma_mod_is_zero_equiv(y, 400);
            let q = choose|q: int| y == #[trigger] (q * 400);
            assert(y == (4 * q) * 100);
            assert(y == (100 * q) * 4);
            lemma_mod_is_zero_equiv(y, 100);
            lemma_mod_is_zero_equiv(y, 4);
        }
    }
    assert(y % 100 == 0 ==> y % 4 == 0) by {
        if y % 100 == 0 {
            lemma_mod_is_zero_equiv(y, 100);
            let q = choose|q: int| y == #[trigger] (q * 100);
            assert(y == (25 * q) * 4);
            lemma_mod_is_zero_equiv(y, 4);
        }
    }
}

/// The day count before a year grows by at least 365 and at most 366 per
/// year of difference.
pub proof fn lemma_days_before_year_growth(y1: int, y2: int)
    requires
        1 <= y1 <= y2,
    ensures
        days_before_year(y1) + 365 * (y2 - y1) <= days_before_year(y2),
        days_before_year(y2) <= days_before_year(y1) + 366 * (y2 - y1),
    decreases y2 - y1,
{
    if y1 < y2 {
        lemma_days_before_year_growth(y1, y2 - 1);
        lemma_days_before_year_succ(y2 - 1);
    }
}

pub fn days_before_year_exec(y: i32) -> (r: i64)
    requires
        1 <= y <= 10001,
    ensures
        r == days_before_year(y as int),
{
    let n: i64 = (y - 1) as i64;
    365 * n + n / 4 - n / 100 + n / 400
}

/// The month table is consistent: passing one month moves the count by
/// that month's length.
pub proof fn lemma_days_before_month_succ(y: int, m: int)
    requires
        1 <= m <= 12,
    ensures
        days_before_month(y, m + 1) == days_before_month(y, m) + days_in_month(y, m),
{
}

/// A whole year's months cover exactly its length.
pub proof fn lemma_days_before_month_full(y: int)
    ensures
        days_before_month(y, 13) == year_length(y),
{
}

/// Recovers the unique calendar date with a given day number.
pub fn from_day_number(n: i64) -> (d: Date)
    requires
        0 <= n < 3652059,
    ensures
        d.wf(),
        d.spec_day_number() == n,
        d == date_of(n as int),
{
    let mut y: i32 = (n / 366) as i32 + 1;
    proof {
        assert(365 * ((n as int) / 366) <= days_before_year(y as int) <= 366 * ((n as int) / 366))
            by {
            assert(0 <= ((y - 1) as int) / 100 <= ((y - 1) as int) / 4 <= (y - 1) as int);
            assert(0 <= ((y - 1) as int) / 400 <= ((y - 1) as int) / 100);
        }
        vstd::arithmetic::div_mod::lemma_fundamental_div_mod(n as int, 366);
    }
    while days_before_year_exec(y + 1) <= n
        invariant
            1 <= y <= 10000,
            days_before_year(y as int) <= n < 3652059,
        decreases 10001 - y,
    {
        proof {
            if y as int + 1 >= 10000 {
                lemma_days_before_year_growth(10000, (y + 1) as int);
                assert(days_before_year(10000int) == 3652059) by {
                    vstd::arithmetic::div_mod::lemma_fundamental_div_mod_converse(
                        9999,
                        4,
                        2499,
                        3,
                    );
                    vstd::arithmetic::div_mod::lemma_fundamental_div_mod_converse(
                        9999,
                        100,
                        99,
                        99,
                    );
                    vstd::arithmetic::div_mod::lemma_fundamental_div_mod_converse(
                        9999,
                        400,
                        24,
                        399,
                    );
                }
            }
        }
        y = y + 1;
    }
    let rem64: i64 = n - days_before_year_exec(y);
    proof {
        lemma_days_before_year_succ(y as int);
        lemma_days_before_month_full(y as int);
    }
    let mut m: u8 = 1;
    while m < 12 && days_before_month_exec(y, m + 1) <= rem64
        invariant
            1 <= m <= 12,
            1 <= y <= 10000,
            rem64 == n - days_before_year(y as int),
            days_before_month(y as int, m as int) <= rem64 < year_length(y as int),
        decreases 12 - m,
    {
        m = m + 1;
    }
    proof {
        lemma_days_before_month_succ(y as int, m as int);
        lemma_days_before_month_full(y as int);
    }
    let d: i64 = rem64 - days_before_month_exec(y, m) + 1;
    let result = Date { year: y, month: m, day: d as u8 };
    proof {
        lemma_date_of(n as int);
        lemma_day_number_injective(result, date_of(n as int));
    }
    result
}

pub proof fn lemma_total_days()
    ensures
        days_before_year(10000) == 3652059,
{
    vstd::arithmetic::div_mod::lemma_fundamental_div_mod_converse(9999, 4, 2499, 3);
    vstd::arithmetic::div_mod::lemma_fundamental_div_mod_converse(9999, 100, 99, 99);
    vstd::arithmetic::div_mod::lemma_fundamental_div_mod_converse(9999, 400, 24, 399);
}

/// A valid date's day number falls within its year's range of days.
pub proof fn lemma_day_number_year_range(y: int, m: int, d: int)
    requires
        valid_ymd(y, m, d),
    ensures
        days_before_year(y) <= day_number_of(y, m, d) < days_before_year(y + 1),
        day_number_of(y, m, d) - days_before_year(y) < year_length(y),
{
    lemma_days_before_year_succ(y);
    lemma_days_before_month_succ(y, m);
    lemma_days_before_month_full(y);
    if m < 12 {
        assert(days_before_month(y, m + 1) <= days_before_month(y, 13));
    }
}

/// Two valid dates with the same day number are the same date.
pub proof fn lemma_day_number_injective(a: Date, b: Date)
    requires
        a.wf(),
        b.wf(),
        a.spec_day_number() == b.spec_day_number(),
    ensures
        a == b,
{
    lemma_day_number_year_range(a.year as int, a.month as int, a.day as int);
    lemma_day_number_year_range(b.year as int, b.month as int, b.day as int);
    if a.year != b.year {
        if a.year < b.year {
            lemma_days_before_year_growth(a.year as int + 1, b.year as int);
        } else {
            lemma_days_before_year_growth(b.year as int + 1, a.year as int);
        }
        assert(false);
    }
    if a.month != b.month {
        let y = a.year as int;
        let lo = if a.month < b.month {
            a.month as int
        } else {
            b.month as int
        };
        let hi = if a.month < b.month {
            b.month as int
        } else {
            a.month as int
        };
        lemma_days_before_month_succ(y, lo);
        assert(days_before_month(y, lo + 1) <= days_before_month(y, hi));
        assert(false);
    }
}

/// Every day number in range is taken by some valid date.
pub proof fn lemma_day_number_surjective(n: int)
    requires
        0 <= n < 3652059,
    ensures
        exists|d: Date| d.wf() && #[trigger] d.spec_day_number() == n,
    decreases n,
{
    if n == 0 {
        let d = Date { year: 1, month: 1, day: 1 };
        assert(d.wf() && d.spec_day_number() == 0);
    } else {
        lemma_day_number_surjective(n - 1);
        let p = choose|d: Date| d.wf() && #[trigger] d.spec_day_number() == n - 1;
        let y = p.year as int;
        let m = p.month as int;
        if (p.day as int) < days_in_month(y, m) {
            let d = Date { year: p.year, month: p.month, day: (p.day + 1) as u8 };
            assert(d.wf() && d.spec_day_number() == n);
        } else if m < 12 {
            let d = Date { year: p.year, month: (p.month + 1) as u8, day: 1 };
            lemma_days_before_month_succ(y, m);
            assert(d.wf() && d.spec_day_number() == n);
        } else {
            lemma_days_before_month_succ(y, 12);
            lemma_days_before_month_full(y);
            lemma_days_before_year_succ(y);
            if y == 9999 {
                lemma_total_days();
                assert(false);
            }
            let d = Date { year: (p.year + 1) as i32, month: 1, day: 1 };
            assert(d.wf() && d.spec_day_number() == n);
        }
    }
}

/// The valid date with day number `n`, as a specification-level value.
pub open spec fn date_of(n: int) -> Date {
    choose|d: Date| d.wf() && #[trigger] d.spec_day_number() == n
}

pub proof fn lemma_date_of(n: int)
    requires
        0 <= n < 3652059,
    ensures
        date_of(n).wf(),
        date_of(n).spec_day_number() == n,
        forall|d: Date| d.wf() && #[trigger] d.spec_day_number() == n ==> d == date_of(n),
{
    lemma_day_number_surjective(n);
    assert forall|d: Date| d.wf() && #[trigger] d.spec_day_number() == n implies d == date_of(
        n,
    ) by {
        lemma_day_number_injective(d, date_of(n));
    }
}

pub open spec fn weekday_of_day_number(n: int) -> int {
    n % 7 + 1
}

/// The weekday ordinal of a day number, with Monday as 1 and Sunday as 7
/// (day 0, January 1 of year 1, is a Monday in the proleptic Gregorian
/// calendar).
pub fn weekday_ord(n: i64) -> (w: u8)
    requires
        0 <= n,
    ensures
        w == weekday_of_day_number(n as int),
        1 <= w <= 7,
{
    (n % 7) as u8 + 1
}

} // verus!
