//! The server's week-numbering scheme over ISO weeks.
//!
//! A `WeekNumber` names an ISO week of a year, or one half of it when the
//! week's Monday and Sunday fall in different months: the server keeps one
//! time sheet per calendar month, so such a week is addressed as two
//! halves, `A` for the days in the Monday's month and `B` for the days in
//! the Sunday's month. A week that stays inside one month is addressed
//! `Whole`.

use crate::date::{
    date_of, day_number_of, days_before_month, days_before_year, days_before_year_exec,
    from_day_number, lemma_date_of, lemma_day_number_bounds,
    lemma_day_number_injective, lemma_day_number_year_range, lemma_days_before_month_succ,
    lemma_days_before_year_growth, lemma_days_before_year_succ, lemma_total_days, year_length,
    Date, MAX_YEAR, MIN_YEAR,
};
use vstd::prelude::*;

verus! {

#[derive(Clone, Copy, Debug, PartialEq, Eq, Structural)]
pub enum WeekPart {
    Whole,
    A,
    B,
}

#[derive(Clone, Copy, Debug, PartialEq, Eq, Structural)]
pub struct WeekNumber {
    pub number: u8,
    pub part: WeekPart,
    pub year: i32,
}

/// Week years stop one short of the calendar's last year, so that every
/// week's neighbours still have valid dates.
pub const MAX_WEEK_YEAR: i32 = 9998;

/// The Monday that starts the week containing day `n` (day numbers are
/// Monday-aligned: day 0 is a Monday).
pub open spec fn monday_of(n: int) -> int {
    n - n % 7
}

/// The Monday of ISO week 1 of year `y`: the week containing January 4.
pub open spec fn week1_monday(y: int) -> int {
    monday_of(day_number_of(y, 1, 4))
}

/// The Monday of ISO week `w` of year `y`.
pub open spec fn iso_monday(y: int, w: int) -> int {
    week1_monday(y) + 7 * (w - 1)
}

/// How many ISO weeks year `y` has (52 or 53).
pub open spec fn iso_weeks_in_year(y: int) -> int {
    (week1_monday(y + 1) - week1_monday(y)) / 7
}

pub open spec fn same_month(a: Date, b: Date) -> bool {
    a.year == b.year && a.month == b.month
}

/// Whether the week that starts at Monday `n` has its Sunday in another
/// month than its Monday.
pub open spec fn spans_month_at(n: int) -> bool {
    !same_month(date_of(n), date_of(n + 6))
}

/// Whether ISO week `w` of year `y` straddles a month boundary.
pub open spec fn week_spans_month(y: int, w: int) -> bool {
    spans_month_at(iso_monday(y, w))
}

impl WeekNumber {
    pub open spec fn wf(self) -> bool {
        &&& MIN_YEAR <= self.year <= MAX_WEEK_YEAR
        &&& 1 <= self.number <= iso_weeks_in_year(self.year as int)
        &&& (self.part is Whole <==> !week_spans_month(self.year as int, self.number as int))
    }

    /// The Monday that starts this week (also for the `B` half, whose
    /// first addressable day lies later in the week).
    pub open spec fn spec_monday(self) -> int {
        iso_monday(self.year as int, self.number as int)
    }

    /// The week-or-half containing a date: its ISO week and year, and the
    /// half holding the date when the week straddles a month boundary.
    pub open spec fn spec_of(d: Date) -> WeekNumber {
        let n = d.spec_day_number();
        let monday = monday_of(n);
        let ty = date_of(monday + 3).year;
        let number = (monday - week1_monday(ty as int)) / 7 + 1;
        let part = if spans_month_at(monday) {
            if same_month(d, date_of(monday)) {
                WeekPart::A
            } else {
                WeekPart::B
            }
        } else {
            WeekPart::Whole
        };
        WeekNumber { number: number as u8, part, year: ty }
    }

    /// The first addressable day: the Monday for a whole week or an `A`
    /// half, the first day of the Sunday's month for a `B` half.
    pub open spec fn spec_first_day(self) -> Date {
        if self.part is B {
            let sd = date_of(self.spec_monday() + 6);
            Date { year: sd.year, month: sd.month, day: 1 }
        } else {
            date_of(self.spec_monday())
        }
    }

    /// The chronologically preceding addressable week-or-half.
    pub open spec fn spec_previous(self) -> WeekNumber {
        if self.part is B {
            WeekNumber { number: self.number, part: WeekPart::A, year: self.year }
        } else {
            let pm = self.spec_monday() - 7;
            let ty = date_of(pm + 3).year;
            let number = (pm - week1_monday(ty as int)) / 7 + 1;
            let part = if spans_month_at(pm) {
                WeekPart::B
            } else {
                WeekPart::Whole
            };
            WeekNumber { number: number as u8, part, year: ty }
        }
    }
}

fn week1_monday_exec(y: i32) -> (r: i64)
    requires
        1 <= y <= 10000,
    ensures
        r == week1_monday(y as int),
        r >= 0,
{
    proof {
        assert(0 <= ((y - 1) as int) / 100 <= ((y - 1) as int) / 4 <= (y - 1) as int);
        assert(0 <= ((y - 1) as int) / 400 <= ((y - 1) as int) / 100);
        lemma_total_days();
        lemma_days_before_year_growth(y as int, 10000);
    }
    let jan4: i64 = days_before_year_exec(y) + 3;
    jan4 - jan4 % 7
}

/// Consecutive week-1 Mondays lie 52 or 53 whole weeks apart.
pub proof fn lemma_weeks_in_year_bounds(y: int)
    requires
        1 <= y <= 9999,
    ensures
        52 <= iso_weeks_in_year(y) <= 53,
        week1_monday(y + 1) == week1_monday(y) + 7 * iso_weeks_in_year(y),
{
    lemma_days_before_year_succ(y);
    let j1 = day_number_of(y, 1, 4);
    let j2 = day_number_of(y + 1, 1, 4);
    assert(j2 - j1 == year_length(y));
    let m1 = monday_of(j1);
    let m2 = monday_of(j2);
    vstd::arithmetic::div_mod::lemma_fundamental_div_mod(j1, 7);
    vstd::arithmetic::div_mod::lemma_fundamental_div_mod(j2, 7);
    assert(m1 == 7 * (j1 / 7)) by {
        assert(j1 == 7 * (j1 / 7) + j1 % 7);
    }
    assert(m2 == 7 * (j2 / 7));
    let diff = (j2 / 7) - (j1 / 7);
    assert(m2 - m1 == 7 * diff) by (nonlinear_arith)
        requires
            m1 == 7 * (j1 / 7),
            m2 == 7 * (j2 / 7),
            diff == (j2 / 7) - (j1 / 7),
    ;
    assert(358 <= m2 - m1 <= 372);
    assert(52 <= diff <= 53) by (nonlinear_arith)
        requires
            m2 - m1 == 7 * diff,
            358 <= m2 - m1 <= 372,
    ;
    vstd::arithmetic::div_mod::lemma_fundamental_div_mod_converse(m2 - m1, 7, diff, 0);
}

/// A day number `t` with `days_before_year(y) <= t < days_before_year(y + 1)`
/// belongs to year `y`.
pub proof fn lemma_year_of_day(t: int, y: int)
    requires
        1 <= y <= 9999,
        days_before_year(y) <= t < days_before_year(y + 1),
        0 <= t < 3652059,
    ensures
        date_of(t).year == y,
{
    lemma_date_of(t);
    let d = date_of(t);
    lemma_day_number_year_range(d.year as int, d.month as int, d.day as int);
    if (d.year as int) < y {
        lemma_days_before_year_growth(d.year as int + 1, y);
        assert(false);
    }
    if (d.year as int) > y {
        lemma_days_before_year_growth(y + 1, d.year as int);
        assert(false);
    }
}

/// Facts about the ISO week containing an arbitrary day `n`: its Monday
/// falls between the week-1 Mondays of the Thursday's year and the next,
/// a whole number of weeks (at most 52) after the former.
pub proof fn lemma_week_of_day(n: int)
    requires
        0 <= n,
        n + 6 < 3652059,
    ensures
        ({
            let monday = monday_of(n);
            let ty = date_of(monday + 3).year as int;
            &&& 0 <= monday <= n
            &&& n <= monday + 6
            &&& monday % 7 == 0
            &&& 1 <= ty <= 9999
            &&& week1_monday(ty) <= monday < week1_monday(ty + 1)
            &&& monday - week1_monday(ty) == 7 * ((monday - week1_monday(ty)) / 7)
            &&& 0 <= (monday - week1_monday(ty)) / 7 < iso_weeks_in_year(ty)
            &&& iso_weeks_in_year(ty) <= 53
        }),
{
    let monday = monday_of(n);
    vstd::arithmetic::div_mod::lemma_fundamental_div_mod(n, 7);
    assert(monday == 7 * (n / 7));
    assert(monday % 7 == 0) by {
        vstd::arithmetic::div_mod::lemma_fundamental_div_mod_converse(monday, 7, n / 7, 0);
    }
    let thursday = monday + 3;
    lemma_date_of(thursday);
    let td = date_of(thursday);
    let ty = td.year as int;
    lemma_day_number_year_range(ty, td.month as int, td.day as int);
    lemma_weeks_in_year_bounds(ty);
    let jan4 = day_number_of(ty, 1, 4);
    let w1m = week1_monday(ty);
    vstd::arithmetic::div_mod::lemma_fundamental_div_mod(jan4, 7);
    assert(w1m == 7 * (jan4 / 7));
    // Lower bound: the Monday cannot fall before the week-1 Monday.
    assert(monday >= days_before_year(ty) - 3);
    assert(w1m <= jan4 == days_before_year(ty) + 3);
    let t = (n / 7) - (jan4 / 7);
    assert(monday - w1m == 7 * t) by (nonlinear_arith)
        requires
            monday == 7 * (n / 7),
            w1m == 7 * (jan4 / 7),
            t == (n / 7) - (jan4 / 7),
    ;
    assert(monday - w1m > -7);
    assert(t >= 0) by (nonlinear_arith)
        requires
            monday - w1m == 7 * t,
            monday - w1m > -7,
    ;
    // Upper bound: the Monday falls before next year's week-1 Monday.
    lemma_days_before_year_succ(ty);
    let jan4n = day_number_of(ty + 1, 1, 4);
    vstd::arithmetic::div_mod::lemma_fundamental_div_mod(jan4n, 7);
    assert(week1_monday(ty + 1) >= jan4n - 6);
    assert(monday < days_before_year(ty + 1) - 3 == jan4n - 6);
    let k = (monday - w1m) / 7;
    vstd::arithmetic::div_mod::lemma_fundamental_div_mod_converse(monday - w1m, 7, t, 0);
    assert(k == t);
    assert(7 * k < 7 * iso_weeks_in_year(ty)) by (nonlinear_arith)
        requires
            7 * k == monday - w1m,
            monday < w1m + 7 * iso_weeks_in_year(ty),
    ;
    assert(k < iso_weeks_in_year(ty)) by (nonlinear_arith)
        requires
            7 * k < 7 * iso_weeks_in_year(ty),
    ;
}

/// When a week straddles a month boundary, the first day of the Sunday's
/// month falls strictly after the Monday and no later than the Sunday.
pub proof fn lemma_b_first_day(monday: int)
    requires
        0 <= monday,
        monday + 6 < 3652059,
        spans_month_at(monday),
    ensures
        ({
            let sd = date_of(monday + 6);
            let f = day_number_of(sd.year as int, sd.month as int, 1);
            monday < f <= monday + 6
        }),
{
    lemma_date_of(monday);
    lemma_date_of(monday + 6);
    let md = date_of(monday);
    let sd = date_of(monday + 6);
    let my = md.year as int;
    let mm = md.month as int;
    let sy = sd.year as int;
    let sm = sd.month as int;
    let f = day_number_of(sy, sm, 1);
    lemma_day_number_year_range(my, mm, md.day as int);
    lemma_day_number_year_range(sy, sm, sd.day as int);
    if my == sy {
        // Same year, different month: the Monday's month ends before the
        // Sunday's begins.
        if mm > sm {
            lemma_days_before_month_succ(my, sm);
            assert(days_before_month(my, sm + 1) <= days_before_month(my, mm));
            assert(false);
        }
        lemma_days_before_month_succ(my, mm);
        assert(days_before_month(my, mm + 1) <= days_before_month(my, sm));
    } else {
        if my > sy {
            lemma_days_before_year_growth(sy + 1, my);
            assert(false);
        }
        lemma_days_before_year_growth(my + 1, sy);
    }
}

/// The Monday, ISO year, week number, Monday's date and whether the week
/// straddles a month boundary, for the week containing day `n`.
fn week_coords(n: i64) -> (r: (i64, i32, u8, bool, Date))
    requires
        0 <= n,
        n + 6 < 3652059,
    ensures
        ({
            let monday = monday_of(n as int);
            let ty = date_of(monday + 3).year;
            let number = (monday - week1_monday(ty as int)) / 7 + 1;
            &&& r.0 == monday
            &&& r.1 == ty
            &&& r.2 == number
            &&& (r.3 <==> spans_month_at(monday))
            &&& (r.3 <==> week_spans_month(ty as int, number as int))
            &&& r.4 == date_of(monday)
            &&& 1 <= number <= iso_weeks_in_year(ty as int)
            &&& monday == iso_monday(ty as int, number as int)
            &&& 1 <= ty <= 9999
        }),
{
    proof {
        lemma_week_of_day(n as int);
    }
    let monday: i64 = n - n % 7;
    let td = from_day_number(monday + 3);
    let ty: i32 = td.year;
    let w1m = week1_monday_exec(ty);
    proof {
        let k = ((monday as int) - week1_monday(ty as int)) / 7;
        vstd::arithmetic::div_mod::lemma_fundamental_div_mod_converse(
            (monday as int) - week1_monday(ty as int),
            7,
            k,
            0,
        );
    }
    let number: u8 = ((monday - w1m) / 7 + 1) as u8;
    let md = from_day_number(monday);
    let sd = from_day_number(monday + 6);
    let spans = !(md.year == sd.year && md.month == sd.month);
    (monday, ty, number, spans, md)
}

impl WeekNumber {
    /// The week-or-half containing date `d` (always defined: `of` is a
    /// total function on dates whose week stays within the supported
    /// years).
    pub fn of(d: &Date) -> (w: WeekNumber)
        requires
            d.wf(),
            d.year <= 9997,
        ensures
            w == WeekNumber::spec_of(*d),
            w.wf(),
            w.spec_monday() <= d.spec_day_number() <= w.spec_monday() + 6,
    {
        proof {
            lemma_day_number_year_range(d.year as int, d.month as int, d.day as int);
            lemma_days_before_year_growth(d.year as int + 1, 9998);
            lemma_days_before_year_succ(9998);
            lemma_total_days();
            lemma_days_before_year_growth(9999, 10000);
        }
        let n = d.day_number();
        let (monday, ty, number, spans, md) = week_coords(n);
        proof {
            // The ISO year stays in range: the Thursday still falls
            // before year 9999 begins.
            if ty as int > MAX_WEEK_YEAR as int {
                lemma_date_of((monday + 3) as int);
                lemma_day_number_year_range(
                    date_of((monday + 3) as int).year as int,
                    date_of((monday + 3) as int).month as int,
                    date_of((monday + 3) as int).day as int,
                );
                lemma_days_before_year_growth(9999, date_of((monday + 3) as int).year as int);
                assert(false);
            }
        }
        let part = if spans {
            if d.year == md.year && d.month == md.month {
                WeekPart::A
            } else {
                WeekPart::B
            }
        } else {
            WeekPart::Whole
        };
        WeekNumber { number, part, year: ty }
    }

    /// Builds a week from its components, rejecting numbers outside the
    /// year and parts inconsistent with the week's month span: `Whole` is
    /// refused exactly when the week straddles a month boundary, and `A`
    /// or `B` exactly when it does not.
    pub fn new(number: u8, part: WeekPart, year: i32) -> (r: Result<WeekNumber, WeekError>)
        ensures
            ({
                let candidate = WeekNumber { number, part, year };
                &&& (r is Ok <==> candidate.wf())
                &&& (r is Ok ==> r.unwrap() == candidate)
                &&& (!(MIN_YEAR <= year <= MAX_WEEK_YEAR && 1 <= number <= iso_weeks_in_year(
                    year as int,
                )) ==> r == Err::<WeekNumber, WeekError>(WeekError::InvalidWeek))
                &&& ((MIN_YEAR <= year <= MAX_WEEK_YEAR && 1 <= number <= iso_weeks_in_year(
                    year as int,
                ) && !candidate.wf()) ==> r == Err::<WeekNumber, WeekError>(WeekError::WrongPart))
            }),
    {
        if year < MIN_YEAR || year > MAX_WEEK_YEAR || number < 1 {
            return Err(WeekError::InvalidWeek);
        }
        let count = weeks_in_year(year);
        if number > count {
            return Err(WeekError::InvalidWeek);
        }
        proof {
            lemma_weeks_in_year_bounds(year as int);
            lemma_monday_in_range(year as int, number as int);
        }
        let w1m = week1_monday_exec(year);
        let monday: i64 = w1m + 7 * ((number - 1) as i64);
        let md = from_day_number(monday);
        let sd = from_day_number(monday + 6);
        let spans = !(md.year == sd.year && md.month == sd.month);
        let whole = matches!(part, WeekPart::Whole);
        if whole == !spans {
            Ok(WeekNumber { number, part, year })
        } else {
            Err(WeekError::WrongPart)
        }
    }

    /// The first addressable day of this week-or-half.
    pub fn first_day(&self) -> (r: Date)
        requires
            self.wf(),
        ensures
            r == self.spec_first_day(),
            r.wf(),
            self.spec_monday() <= r.spec_day_number() <= self.spec_monday() + 6,
            !(self.part is B) ==> r.spec_day_number() == self.spec_monday(),
    {
        proof {
            lemma_monday_in_range(self.year as int, self.number as int);
        }
        let w1m = week1_monday_exec(self.year);
        let monday: i64 = w1m + 7 * ((self.number - 1) as i64);
        match self.part {
            WeekPart::B => {
                let sd = from_day_number(monday + 6);
                proof {
                    lemma_b_first_day(monday as int);
                }
                Date { year: sd.year, month: sd.month, day: 1 }
            },
            _ => from_day_number(monday),
        }
    }

    /// The chronologically preceding addressable week-or-half: the `A`
    /// half of the same week for a `B` half, otherwise the previous
    /// week, which comes out as its `B` half when it straddles a month
    /// boundary and as a whole week when it does not.
    #[verifier::rlimit(100)]
    #[verifier::spinoff_prover]
    pub fn previous(&self) -> (r: WeekNumber)
        requires
            self.wf(),
            !(self.number == 1 && self.year == MIN_YEAR),
        ensures
            r == self.spec_previous(),
            r.wf(),
            self.part is B ==> r == (WeekNumber {
                number: self.number,
                part: WeekPart::A,
                year: self.year,
            }),
            !(self.part is B) ==> r.spec_monday() == self.spec_monday() - 7,
    {
        match self.part {
            WeekPart::B => WeekNumber { number: self.number, part: WeekPart::A, year: self.year },
            _ => {
                proof {
                    lemma_monday_in_range(self.year as int, self.number as int);
                    lemma_previous_week_in_range(self.year as int, self.number as int);
                }
                let w1m = week1_monday_exec(self.year);
                let monday: i64 = w1m + 7 * ((self.number - 1) as i64);
                let pm: i64 = monday - 7;
                let (_, ty, number, spans, _) = week_coords(pm);
                let part = if spans {
                    WeekPart::B
                } else {
                    WeekPart::Whole
                };
                WeekNumber { number, part, year: ty }
            },
        }
    }
}

/// Law: every date lies within the seven days of the ISO week that
/// `spec_of` assigns to it, and the first addressable day of that
/// week-or-half lies within the same seven days; for a whole week the
/// first day is the Monday itself.
pub proof fn lemma_week_of_date_covers(d: Date)
    requires
        d.wf(),
        d.year <= 9997,
    ensures
        ({
            let w = WeekNumber::spec_of(d);
            &&& w.spec_monday() <= d.spec_day_number() <= w.spec_monday() + 6
            &&& (w.part is Whole ==> w.spec_first_day().spec_day_number() == w.spec_monday())
            &&& w.spec_monday() <= w.spec_first_day().spec_day_number() <= w.spec_monday() + 6
        }),
{
    let n = d.spec_day_number();
    lemma_day_number_bounds(d.year as int, d.month as int, d.day as int);
    lemma_day_number_year_range(d.year as int, d.month as int, d.day as int);
    lemma_days_before_year_growth(d.year as int + 1, 9998);
    lemma_days_before_year_succ(9998);
    lemma_total_days();
    lemma_days_before_year_growth(9999, 10000);
    lemma_week_of_day(n);
    let monday = monday_of(n);
    let w = WeekNumber::spec_of(d);
    let ty = date_of(monday + 3).year as int;
    let k = (monday - week1_monday(ty)) / 7;
    assert(w.spec_monday() == week1_monday(ty) + 7 * ((k + 1) - 1) == monday);
    if w.part is B {
        lemma_b_first_day(monday);
        lemma_date_of(monday + 6);
        let sd = date_of(monday + 6);
        let f = Date { year: sd.year, month: sd.month, day: 1 };
        assert(f.spec_day_number() == day_number_of(sd.year as int, sd.month as int, 1));
    } else {
        lemma_date_of(monday);
    }
}

/// Law: stepping back from a `B` half yields the `A` half of the very
/// same week and year.
pub proof fn lemma_previous_of_b_half(w: WeekNumber)
    requires
        w.wf(),
        w.part is B,
    ensures
        w.spec_previous() == (WeekNumber { number: w.number, part: WeekPart::A, year: w.year }),
        w.spec_previous().wf(),
{
}

/// Law: stepping back from week 1 of a year (whole week or `A` half)
/// yields the last week of the prior year, whose number is that year's
/// week count, 52 or 53.
#[verifier::rlimit(100)]
pub proof fn lemma_previous_from_week_one(w: WeekNumber)
    requires
        w.wf(),
        w.number == 1,
        !(w.part is B),
        w.year >= 2,
    ensures
        w.spec_previous().year == w.year - 1,
        w.spec_previous().number == iso_weeks_in_year(w.year as int - 1),
        52 <= w.spec_previous().number <= 53,
{
    let y = w.year as int;
    let pm = w.spec_monday() - 7;
    let jan4 = day_number_of(y, 1, 4);
    vstd::arithmetic::div_mod::lemma_fundamental_div_mod(jan4, 7);
    assert(w.spec_monday() == week1_monday(y));
    assert(days_before_year(y) - 7 <= pm + 3 <= days_before_year(y) - 1);
    lemma_days_before_year_succ(y - 1);
    lemma_days_before_year_growth(2, y);
    lemma_days_before_year_growth(y, 9999);
    lemma_days_before_year_succ(9999);
    lemma_total_days();
    lemma_year_of_day(pm + 3, y - 1);
    lemma_weeks_in_year_bounds(y - 1);
    let wiy = iso_weeks_in_year(y - 1);
    assert(pm - week1_monday(y - 1) == 7 * (wiy - 1)) by (nonlinear_arith)
        requires
            pm == week1_monday(y) - 7,
            week1_monday(y) == week1_monday(y - 1) + 7 * wiy,
    ;
    vstd::arithmetic::div_mod::lemma_fundamental_div_mod_converse(
        pm - week1_monday(y - 1),
        7,
        wiy - 1,
        0,
    );
}

/// The Thursday of any week addressed as (year, number) falls within
/// that very year: week years and day numbers cohere.
proof fn lemma_thursday_in_year(y: int, w: int)
    requires
        MIN_YEAR <= y <= MAX_WEEK_YEAR,
        1 <= w <= iso_weeks_in_year(y),
    ensures
        days_before_year(y) <= iso_monday(y, w) + 3 < days_before_year(y + 1),
{
    lemma_monday_in_range(y, w);
    lemma_weeks_in_year_bounds(y);
    let jan4 = day_number_of(y, 1, 4);
    vstd::arithmetic::div_mod::lemma_fundamental_div_mod(jan4, 7);
    assert(week1_monday(y) >= days_before_year(y) - 3);
    let jan4n = day_number_of(y + 1, 1, 4);
    vstd::arithmetic::div_mod::lemma_fundamental_div_mod(jan4n, 7);
    assert(week1_monday(y + 1) <= jan4n);
    lemma_days_before_year_succ(y);
    assert(7 * (w - 1) <= 7 * (iso_weeks_in_year(y) - 1)) by (nonlinear_arith)
        requires
            w <= iso_weeks_in_year(y),
    ;
    assert(iso_monday(y, w) <= week1_monday(y + 1) - 7);
}

/// Law: `of`, `new` and `first_day` cohere. The first day of a whole
/// week or an `A` half maps back to that very week-or-half under `of`;
/// the first day of a `B` half maps back to the `B` half of the same
/// week.
#[verifier::rlimit(100)]
#[verifier::spinoff_prover]
pub proof fn lemma_of_first_day_round_trip(w: WeekNumber)
    requires
        w.wf(),
    ensures
        WeekNumber::spec_of(w.spec_first_day()) == w,
{
    let y = w.year as int;
    let num = w.number as int;
    lemma_monday_in_range(y, num);
    lemma_thursday_in_year(y, num);
    let monday = w.spec_monday();
    let f = w.spec_first_day();
    lemma_date_of(monday);
    lemma_date_of(monday + 6);
    // The first day lies in the week, so its week's Monday is ours.
    if w.part is B {
        lemma_b_first_day(monday);
        let sd = date_of(monday + 6);
        assert(f.spec_day_number() == day_number_of(sd.year as int, sd.month as int, 1));
        assert(f.wf());
    }
    let n = f.spec_day_number();
    assert(monday <= n <= monday + 6);
    assert(monday % 7 == 0) by {
        let jan4 = day_number_of(y, 1, 4);
        vstd::arithmetic::div_mod::lemma_fundamental_div_mod(jan4, 7);
        let t = (jan4 / 7) + (num - 1);
        assert(monday == 7 * t) by (nonlinear_arith)
            requires
                monday == 7 * (jan4 / 7) + 7 * (num - 1),
                t == (jan4 / 7) + (num - 1),
        ;
        vstd::arithmetic::div_mod::lemma_fundamental_div_mod_converse(monday, 7, t, 0);
    }
    assert(monday_of(n) == monday) by {
        vstd::arithmetic::div_mod::lemma_fundamental_div_mod(monday, 7);
        vstd::arithmetic::div_mod::lemma_fundamental_div_mod_converse(
            n,
            7,
            monday / 7,
            n - monday,
        );
    }
    // The Thursday's year is this week's year, so `of` recovers it.
    lemma_year_of_day(monday + 3, y);
    // And the week number comes back from the Monday's distance to the
    // week-1 Monday.
    vstd::arithmetic::div_mod::lemma_fundamental_div_mod_converse(
        monday - week1_monday(y),
        7,
        num - 1,
        0,
    );
    let back = WeekNumber::spec_of(f);
    assert(back.number == w.number && back.year == w.year);
    // The part comes back from where the first day lies.
    if w.part is B {
        assert(!same_month(f, date_of(monday))) by {
            if same_month(f, date_of(monday)) {
                lemma_day_number_year_range(f.year as int, f.month as int, f.day as int);
                lemma_day_number_year_range(
                    date_of(monday).year as int,
                    date_of(monday).month as int,
                    date_of(monday).day as int,
                );
                lemma_b_first_day(monday);
                assert(date_of(monday).spec_day_number() < f.spec_day_number());
                assert(date_of(monday).day < f.day);
                assert(f.day == 1);
                assert(false);
            }
        }
    } else {
        assert(f == date_of(monday));
    }
}

/// Law: stepping back always lands strictly earlier: the previous
/// week-or-half's first day precedes this one's, and it never lies more
/// than a week back. Repeated application therefore walks through every
/// addressable week-or-half and, from any week, eventually reaches the
/// prior year.
#[verifier::rlimit(100)]
#[verifier::spinoff_prover]
pub proof fn lemma_previous_is_earlier(w: WeekNumber)
    requires
        w.wf(),
        !(w.number == 1 && w.year == MIN_YEAR),
    ensures
        w.spec_previous().spec_first_day().spec_day_number() < w.spec_first_day().spec_day_number(),
        w.spec_first_day().spec_day_number() - w.spec_previous().spec_first_day().spec_day_number()
            <= 7,
{
    lemma_monday_in_range(w.year as int, w.number as int);
    let monday = w.spec_monday();
    if w.part is B {
        // The B half starts at the first of the Sunday's month, strictly
        // after the Monday where the A half starts.
        lemma_b_first_day(monday);
        lemma_date_of(monday);
        lemma_date_of(monday + 6);
        let sd = date_of(monday + 6);
        let f = Date { year: sd.year, month: sd.month, day: 1 };
        assert(f.spec_day_number() == day_number_of(sd.year as int, sd.month as int, 1));
        assert(w.spec_previous().spec_first_day() == date_of(monday));
    } else {
        lemma_previous_week_in_range(w.year as int, w.number as int);
        let pm = monday - 7;
        lemma_week_of_day(pm);
        let prev = w.spec_previous();
        let ty = date_of(pm + 3).year as int;
        let k = (pm - week1_monday(ty)) / 7;
        assert(prev.spec_monday() == week1_monday(ty) + 7 * ((k + 1) - 1) == pm);
        lemma_date_of(monday);
        if prev.part is B {
            lemma_b_first_day(pm);
            lemma_date_of(pm + 6);
            let sd = date_of(pm + 6);
            let f = Date { year: sd.year, month: sd.month, day: 1 };
            assert(f.spec_day_number() == day_number_of(sd.year as int, sd.month as int, 1));
        } else {
            lemma_date_of(pm);
        }
    }
}

/// A Monday lying a whole number of weeks into year `yy`'s range of
/// weeks has its Thursday in year `yy`.
#[verifier::spinoff_prover]
proof fn lemma_monday_week_year(yy: int, m2: int)
    requires
        MIN_YEAR <= yy <= 9998,
        week1_monday(yy) <= m2 < week1_monday(yy + 1),
        m2 % 7 == 0,
    ensures
        0 <= m2,
        m2 + 6 < 3652059,
        date_of(m2 + 3).year == yy,
{
    lemma_weeks_in_year_bounds(yy);
    let jan4p = day_number_of(yy, 1, 4);
    vstd::arithmetic::div_mod::lemma_fundamental_div_mod(jan4p, 7);
    assert(week1_monday(yy) == 7 * (jan4p / 7));
    assert(week1_monday(yy) >= days_before_year(yy) - 3);
    vstd::arithmetic::div_mod::lemma_fundamental_div_mod(m2, 7);
    assert(m2 == 7 * (m2 / 7));
    let j = (m2 / 7) - (jan4p / 7);
    assert(m2 - week1_monday(yy) == 7 * j) by (nonlinear_arith)
        requires
            m2 == 7 * (m2 / 7),
            week1_monday(yy) == 7 * (jan4p / 7),
            j == (m2 / 7) - (jan4p / 7),
    ;
    assert(0 <= j < iso_weeks_in_year(yy)) by (nonlinear_arith)
        requires
            m2 - week1_monday(yy) == 7 * j,
            0 <= m2 - week1_monday(yy),
            m2 < week1_monday(yy) + 7 * iso_weeks_in_year(yy),
    ;
    assert(m2 == iso_monday(yy, j + 1));
    lemma_thursday_in_year(yy, j + 1);
    lemma_days_before_year_growth(yy + 1, 9999);
    lemma_days_before_year_succ(9999);
    lemma_total_days();
    lemma_year_of_day(m2 + 3, yy);
}

/// Law: from any date, stepping back 52 or 53 whole weeks reaches the
/// prior week-year: one of the two step counts always lands in a week
/// of the year before the date's ISO year. This is the date-shift form
/// of going a year back, as the n:th-previous-week fallback computes
/// it.
#[verifier::rlimit(100)]
#[verifier::spinoff_prover]
pub proof fn lemma_year_back_in_52_or_53_weeks(d: Date)
    requires
        d.wf(),
        d.year <= 9997,
        WeekNumber::spec_of(d).year >= 2,
    ensures
        ({
            let y = WeekNumber::spec_of(d).year as int;
            let n = d.spec_day_number();
            ||| WeekNumber::spec_of(date_of(n - 364)).year == y - 1
            ||| WeekNumber::spec_of(date_of(n - 371)).year == y - 1
        }),
{
    let n = d.spec_day_number();
    lemma_day_number_bounds(d.year as int, d.month as int, d.day as int);
    lemma_day_number_year_range(d.year as int, d.month as int, d.day as int);
    lemma_days_before_year_growth(d.year as int + 1, 9998);
    lemma_days_before_year_succ(9998);
    lemma_total_days();
    lemma_days_before_year_growth(9999, 10000);
    lemma_week_of_day(n);
    let monday = monday_of(n);
    let y = date_of(monday + 3).year as int;
    lemma_weeks_in_year_bounds(y - 1);
    lemma_weeks_in_year_bounds(y);
    let span = 7 * iso_weeks_in_year(y - 1);
    assert(week1_monday(y) == week1_monday(y - 1) + span);
    assert(364 <= span <= 371);
    assert(week1_monday(y + 1) <= week1_monday(y) + 371);
    // Pick the step count that lands inside the prior year's weeks.
    let k: int = if monday - 371 >= week1_monday(y - 1) {
        53
    } else {
        52
    };
    let m2 = monday - 7 * k;
    if k == 53 {
        assert(week1_monday(y - 1) <= m2);
        assert(m2 < week1_monday(y));
    } else {
        // 53 steps would overshoot, so the prior year spans 364 days
        // and 52 steps land inside it.
        assert(monday < week1_monday(y - 1) + 371);
        assert(span == 364);
        assert(week1_monday(y - 1) <= m2);
        assert(m2 < week1_monday(y));
    }
    // The landing Monday is a whole number of weeks into the prior
    // year, so its week belongs to that year.
    vstd::arithmetic::div_mod::lemma_fundamental_div_mod(n, 7);
    assert(monday == 7 * (n / 7));
    assert(m2 % 7 == 0) by {
        vstd::arithmetic::div_mod::lemma_fundamental_div_mod_converse(m2, 7, (n / 7) - k, 0);
        assert(m2 == ((n / 7) - k) * 7 + 0) by (nonlinear_arith)
            requires
                monday == 7 * (n / 7),
                m2 == monday - 7 * k,
        ;
    }
    lemma_monday_week_year(y - 1, m2);
    // The date seven times `k` days earlier lies in that very week.
    let n2 = n - 7 * k;
    assert(m2 <= n2 <= m2 + 6);
    lemma_date_of(n2);
    assert(date_of(n2).spec_day_number() == n2);
    assert(monday_of(n2) == m2) by {
        vstd::arithmetic::div_mod::lemma_fundamental_div_mod_converse(
            n2,
            7,
            (n / 7) - k,
            n2 - m2,
        );
        assert(n2 == ((n / 7) - k) * 7 + (n2 - m2)) by (nonlinear_arith)
            requires
                monday == 7 * (n / 7),
                m2 == monday - 7 * k,
                n2 == n - 7 * k,
                n == 7 * (n / 7) + n % 7,
                n2 - m2 == n % 7,
        ;
    }
    assert(WeekNumber::spec_of(date_of(n2)).year == y - 1);
}

#[derive(Clone, Copy, Debug, PartialEq, Eq, Structural)]
pub enum WeekError {
    /// The week number does not exist in the year (or the year is out of
    /// the supported range).
    InvalidWeek,
    /// The part is `Whole` for a week that straddles a month boundary, or
    /// `A`/`B` for one that does not.
    WrongPart,
}

/// For any addressable week but the very first, the previous week's
/// Monday is still a valid day number and its Thursday's year stays in
/// the supported range.
pub proof fn lemma_previous_week_in_range(y: int, w: int)
    requires
        MIN_YEAR <= y <= MAX_WEEK_YEAR,
        1 <= w <= iso_weeks_in_year(y),
        !(w == 1 && y == MIN_YEAR),
    ensures
        ({
            let pm = iso_monday(y, w) - 7;
            &&& 0 <= pm
            &&& pm + 6 < 3652059
            &&& 1 <= date_of(pm + 3).year <= MAX_WEEK_YEAR
        }),
{
    lemma_monday_in_range(y, w);
    let pm = iso_monday(y, w) - 7;
    if w == 1 {
        let jan4 = day_number_of(y, 1, 4);
        vstd::arithmetic::div_mod::lemma_fundamental_div_mod(jan4, 7);
        assert(week1_monday(y) >= days_before_year(y) - 3);
        lemma_days_before_year_growth(2, y);
    } else {
        assert(7 * (w - 1) >= 7) by (nonlinear_arith)
            requires
                w >= 2,
        ;
    }
    lemma_date_of(pm + 3);
    let td = date_of(pm + 3);
    lemma_day_number_year_range(td.year as int, td.month as int, td.day as int);
    if td.year as int > MAX_WEEK_YEAR as int {
        lemma_weeks_in_year_bounds(y);
        assert(7 * (w - 1) <= 7 * (iso_weeks_in_year(y) - 1)) by (nonlinear_arith)
            requires
                w <= iso_weeks_in_year(y),
        ;
        let jan4n = day_number_of(y + 1, 1, 4);
        vstd::arithmetic::div_mod::lemma_fundamental_div_mod(jan4n, 7);
        assert(week1_monday(y + 1) <= jan4n);
        lemma_days_before_year_growth(y + 1, 9999);
        lemma_days_before_year_growth(9999, td.year as int);
        assert(false);
    }
}

/// The Monday of a valid week of a supported year lies in the valid range
/// of day numbers, with six more days to spare.
pub proof fn lemma_monday_in_range(y: int, w: int)
    requires
        MIN_YEAR <= y <= MAX_WEEK_YEAR,
        1 <= w <= iso_weeks_in_year(y),
    ensures
        0 <= iso_monday(y, w),
        iso_monday(y, w) + 6 < 3652059,
        iso_monday(y, w) == week1_monday(y) + 7 * (w - 1),
{
    lemma_weeks_in_year_bounds(y);
    let jan4 = day_number_of(y, 1, 4);
    vstd::arithmetic::div_mod::lemma_fundamental_div_mod(jan4, 7);
    assert(week1_monday(y) >= 0) by {
        assert(0 <= ((y - 1) as int) / 100 <= ((y - 1) as int) / 4 <= (y - 1) as int);
        assert(0 <= ((y - 1) as int) / 400 <= ((y - 1) as int) / 100);
    }
    assert(7 * (w - 1) <= 7 * (iso_weeks_in_year(y) - 1)) by (nonlinear_arith)
        requires
            w <= iso_weeks_in_year(y),
    ;
    let jan4n = day_number_of(y + 1, 1, 4);
    vstd::arithmetic::div_mod::lemma_fundamental_div_mod(jan4n, 7);
    assert(week1_monday(y + 1) <= jan4n);
    lemma_days_before_year_growth(y + 1, 9999);
    lemma_days_before_year_succ(9999);
    lemma_total_days();
}

/// How many ISO weeks a year has: 52 or 53.
pub fn weeks_in_year(y: i32) -> (r: u8)
    requires
        1 <= y <= 9999,
    ensures
        r == iso_weeks_in_year(y as int),
        52 <= r <= 53,
{
    proof {
        lemma_weeks_in_year_bounds(y as int);
        vstd::arithmetic::div_mod::lemma_fundamental_div_mod_converse(
            week1_monday(y as int + 1) - week1_monday(y as int),
            7,
            iso_weeks_in_year(y as int),
            0,
        );
    }
    let a = week1_monday_exec(y);
    let b = week1_monday_exec(y + 1);
    ((b - a) / 7) as u8
}

} // verus!
