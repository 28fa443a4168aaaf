//! Fallbacks that depend on the current date: today's week, the n:th
//! previous week, and today's weekday.
//!
//! The current date comes from the system clock through one trusted
//! wrapper; everything derived from it lives in exactly-specified
//! functions that take the date as an argument, so the derivations are
//! verified for every date the clock could give.

use crate::date::{date_of, weekday_of_day_number, Date};
use crate::day::{Day, Days};
use crate::week::{WeekError, WeekNumber, WeekPart};
use vstd::prelude::*;

verus! {

/// Relies on chrono::Local::now and the Datelike accessors of
/// chrono::NaiveDate: the current local date's year, month (documented
/// to range over 1..=12) and day of month (documented to range over
/// 1..=31). chrono aborts on a system clock set before 1970, so such a
/// clock is answered with nothing instead.
#[verifier::external_body]
fn today_ymd() -> (r: Option<(i32, u32, u32)>)
    ensures
        r matches Some(t) ==> 1 <= t.1 <= 12 && 1 <= t.2 <= 31,
{
    let epoch = std::time::SystemTime::now().duration_since(std::time::UNIX_EPOCH);
    if epoch.is_err() {
        return None;
    }
    let d = chrono::Local::now().date_naive();
    Some((chrono::Datelike::year(&d), chrono::Datelike::month(&d), chrono::Datelike::day(&d)))
}

#[derive(Clone, Copy, Debug, PartialEq, Eq, Structural)]
pub enum WeekFallbackError {
    /// The clock gave a date outside the supported years.
    ClockOutOfRange,
    /// The requested week or part does not exist.
    Week(WeekError),
    /// Stepping back crossed the lower edge of the supported years.
    TooFarBack,
}

/// Today's date, when the clock's date lies within the supported years.
pub fn today() -> (r: Option<Date>)
    ensures
        r is Some ==> r.unwrap().wf(),
{
    match today_ymd() {
        Some((y, m, d)) => Date::new(y, m as u8, d as u8),
        None => None,
    }
}

/// The week-or-half containing a date, guarded to the years whose weeks
/// the model addresses.
pub fn current_week_from(today: Date) -> (r: Result<WeekNumber, WeekFallbackError>)
    requires
        today.wf(),
    ensures
        today.year > 9997 ==> r == Err::<WeekNumber, WeekFallbackError>(
            WeekFallbackError::ClockOutOfRange,
        ),
        today.year <= 9997 ==> r == Ok::<WeekNumber, WeekFallbackError>(
            WeekNumber::spec_of(today),
        ),
        r is Ok ==> r.unwrap().wf(),
{
    if today.year <= 9997 {
        Ok(WeekNumber::of(&today))
    } else {
        Err(WeekFallbackError::ClockOutOfRange)
    }
}

/// The week-or-half containing the day `n` weeks before a given date:
/// stepping back farther than the calendar's origin is refused, and
/// otherwise the result is exactly the week of the shifted date.
pub fn previous_week_from(today: Date, n: u8) -> (r: Result<WeekNumber, WeekFallbackError>)
    requires
        today.wf(),
    ensures
        today.year > 9997 ==> r == Err::<WeekNumber, WeekFallbackError>(
            WeekFallbackError::ClockOutOfRange,
        ),
        (today.year <= 9997 && today.spec_day_number() < 7 * n) ==> r == Err::<
            WeekNumber,
            WeekFallbackError,
        >(WeekFallbackError::TooFarBack),
        (today.year <= 9997 && today.spec_day_number() >= 7 * n) ==> r == Ok::<
            WeekNumber,
            WeekFallbackError,
        >(WeekNumber::spec_of(date_of(today.spec_day_number() - 7 * n))),
        r is Ok ==> r.unwrap().wf(),
{
    if today.year > 9997 {
        return Err(WeekFallbackError::ClockOutOfRange);
    }
    let back: i64 = 7 * (n as i64);
    let nd = today.day_number();
    if nd < back {
        return Err(WeekFallbackError::TooFarBack);
    }
    let d = crate::date::from_day_number(nd - back);
    proof {
        crate::date::lemma_day_number_year_range(d.year as int, d.month as int, d.day as int);
        crate::date::lemma_day_number_year_range(
            today.year as int,
            today.month as int,
            today.day as int,
        );
        if d.year > today.year {
            crate::date::lemma_days_before_year_growth(today.year as int + 1, d.year as int);
        }
    }
    Ok(WeekNumber::of(&d))
}

/// The single-day set holding a date's weekday.
pub fn weekday_set_of(today: Date) -> (r: Days)
    requires
        today.wf(),
    ensures
        r.wf(),
        r@ == Set::<Day>::empty().insert(
            Day::spec_of_ordinal(weekday_of_day_number(today.spec_day_number())),
        ),
{
    let w = crate::date::weekday_ord(today.day_number());
    let day = Day::of_ordinal(w);
    let mut ds = Days::empty();
    ds.insert(day);
    ds
}

/// The week-or-half to work on, from the user's arguments: an explicit
/// week (with today's year as default), the n:th previous week, or the
/// week containing today. A week number without a part names the whole
/// week, so it is refused when that week straddles a month boundary.
pub fn get_week_number(
    week: Option<u8>,
    part: Option<WeekPart>,
    previous_week: Option<u8>,
    year: Option<i32>,
) -> (r: Result<WeekNumber, WeekFallbackError>)
    ensures
        r is Ok ==> r.unwrap().wf(),
        // An explicit week and year leave nothing to the clock: the
        // result is that week, with the whole week as the default part,
        // accepted exactly when it is well-formed.
        (week is Some && year is Some && previous_week is None) ==> ({
            let p = match part {
                Some(p) => p,
                None => WeekPart::Whole,
            };
            let candidate = WeekNumber { number: week.unwrap(), part: p, year: year.unwrap() };
            &&& (r is Ok <==> candidate.wf())
            &&& (r is Ok ==> r.unwrap() == candidate)
            &&& (!(crate::date::MIN_YEAR <= year.unwrap() <= crate::week::MAX_WEEK_YEAR && 1
                <= week.unwrap() <= crate::week::iso_weeks_in_year(year.unwrap() as int)) ==> r
                == Err::<WeekNumber, WeekFallbackError>(
                WeekFallbackError::Week(WeekError::InvalidWeek),
            ))
            &&& ((crate::date::MIN_YEAR <= year.unwrap() <= crate::week::MAX_WEEK_YEAR && 1
                <= week.unwrap() <= crate::week::iso_weeks_in_year(year.unwrap() as int)
                && !candidate.wf()) ==> r == Err::<WeekNumber, WeekFallbackError>(
                WeekFallbackError::Week(WeekError::WrongPart),
            ))
        }),
{
    if let Some(n) = previous_week {
        return nth_previous_week(n);
    }
    match week {
        Some(w) => {
            let y = match year {
                Some(y) => y,
                None => {
                    match today() {
                        Some(t) => t.year,
                        None => {
                            return Err(WeekFallbackError::ClockOutOfRange);
                        },
                    }
                },
            };
            let p = match part {
                Some(p) => p,
                None => WeekPart::Whole,
            };
            match WeekNumber::new(w, p, y) {
                Ok(wn) => Ok(wn),
                Err(e) => Err(WeekFallbackError::Week(e)),
            }
        },
        None => {
            match today() {
                Some(t) => current_week_from(t),
                None => Err(WeekFallbackError::ClockOutOfRange),
            }
        },
    }
}

/// The week-or-half containing the day `n` weeks before today:
/// `previous_week_from`, whose contract is exact, applied to the
/// clock's date.
pub fn nth_previous_week(n: u8) -> (r: Result<WeekNumber, WeekFallbackError>)
    ensures
        r is Ok ==> r.unwrap().wf(),
{
    match today() {
        Some(t) => previous_week_from(t, n),
        None => Err(WeekFallbackError::ClockOutOfRange),
    }
}

/// The days to edit: the given set when present, else today's weekday.
pub fn get_days(days: Option<Days>) -> (r: Result<Days, WeekFallbackError>)
    requires
        days matches Some(d) ==> d.wf(),
    ensures
        r matches Ok(d) ==> d.wf(),
        days matches Some(d) ==> r == Ok::<Days, WeekFallbackError>(d),
{
    match days {
        Some(d) => Ok(d),
        None => {
            match today() {
                Some(t) => Ok(weekday_set_of(t)),
                None => Err(WeekFallbackError::ClockOutOfRange),
            }
        },
    }
}

} // verus!
