//! Swedish holidays: fixed dates, Easter-based days, and the floating
//! midsummer and All Saints' days.
//!
//! Easter Sunday comes from the classical Gaussian computation, which is
//! sound for years up to 4099; everything else is a fixed rule over the
//! calendar date and its weekday.

use crate::date::{day_number_of, weekday_of_day_number, Date, MIN_YEAR};
use vstd::prelude::*;

verus! {

#[derive(Debug, Clone, Copy, PartialEq, Eq, Structural)]
pub enum HolidayType {
    /// Official public holiday.
    Public,
    /// De facto holiday, a full day.
    DeFacto,
    /// De facto holiday, a half day.
    DeFactoHalf,
}

/// A holiday: the date it falls on, its kind, and its Swedish name.
#[derive(Debug, Clone, Copy)]
pub struct Holiday {
    pub date: Date,
    pub holiday_type: HolidayType,
    pub name: &'static str,
}

/// The last year the Easter computation is stated for.
pub const MAX_EASTER_YEAR: i32 = 4099;

/// The month and day of Easter Sunday of year `y`, by the Gaussian
/// computation.
pub open spec fn spec_easter_md(y: int) -> (int, int) {
    let g = y % 19 + 1;
    let c = y / 100 + 1;
    let x = (3 * c) / 4 - 12;
    let z = (8 * c + 5) / 25 - 5;
    let d = (5 * y) / 4 - x - 10;
    let e0 = (11 * g + 20 + z - x) % 30;
    let e = if e0 == 24 || (e0 == 25 && g > 11) {
        e0 + 1
    } else {
        e0
    };
    let n0 = 44 - e;
    let n1 = if n0 < 21 {
        n0 + 30
    } else {
        n0
    };
    let n = n1 + 7 - ((d + n1) % 7);
    let month = 3 + n / 31;
    let day = n % 31;
    if day == 0 {
        (month - 1, 31)
    } else {
        (month, day)
    }
}

/// The date of Easter Sunday of a year.
pub fn easter_date(year: i32) -> (r: Date)
    requires
        MIN_YEAR <= year <= MAX_EASTER_YEAR,
    ensures
        r.wf(),
        r.year == year,
        (r.month as int, r.day as int) == spec_easter_md(year as int),
        r.month == 3 || r.month == 4,
{
    let y: i64 = year as i64;
    let g: i64 = y % 19 + 1;
    let c: i64 = y / 100 + 1;
    let x: i64 = (3 * c) / 4 - 12;
    let z: i64 = (8 * c + 5) / 25 - 5;
    let d: i64 = (5 * y) / 4 - x - 10;
    proof {
        assert(1 <= c <= 41);
        assert((3 * c) / 4 <= 123int / 4) by {
            vstd::arithmetic::div_mod::lemma_div_is_ordered(3 * c as int, 123, 4);
        }
        assert(123int / 4 == 30) by {
            vstd::arithmetic::div_mod::lemma_fundamental_div_mod_converse(123, 4, 30, 3);
        }
        assert((8 * c + 5) / 25 >= 0) by {
            vstd::arithmetic::div_mod::lemma_div_pos_is_pos(8 * c as int + 5, 25);
        }
        assert(11 * g + 20 + z - x >= 8);
    }
    let e0: i64 = (11 * g + 20 + z - x) % 30;
    let e: i64 = if e0 == 24 || (e0 == 25 && g > 11) {
        e0 + 1
    } else {
        e0
    };
    let n0: i64 = 44 - e;
    let n1: i64 = if n0 < 21 {
        n0 + 30
    } else {
        n0
    };
    proof {
        assert(d >= 0) by {
            assert((5 * y) / 4 >= y) by {
                vstd::arithmetic::div_mod::lemma_div_is_ordered(4 * y as int, 5 * y as int, 4);
                vstd::arithmetic::div_mod::lemma_div_by_multiple(y as int, 4);
            }
            assert(x <= 18);
        }
    }
    let n: i64 = n1 + 7 - ((d + n1) % 7);
    let month0: i64 = 3 + n / 31;
    let day0: i64 = n % 31;
    proof {
        assert(21 <= n1 <= 50);
        if n <= 30 {
            vstd::arithmetic::div_mod::lemma_fundamental_div_mod_converse(n as int, 31, 0, n as int);
        } else {
            vstd::arithmetic::div_mod::lemma_fundamental_div_mod_converse(
                n as int,
                31,
                1,
                n as int - 31,
            );
        }
    }
    let (month, day): (i64, i64) = if day0 == 0 {
        (month0 - 1, 31)
    } else {
        (month0, day0)
    };
    Date { year, month: month as u8, day: day as u8 }
}

/// The Swedish holiday falling on a date, if any: the fixed-date
/// holidays, the Easter-based ones at their offsets from Easter Sunday,
/// midsummer eve and day (Friday and Saturday in June 20..=26), and All
/// Saints' eve and day (Friday and Saturday in October 31 through
/// November 6).
pub open spec fn spec_holiday(date: Date) -> Option<Holiday> {
    let y = date.year as int;
    let m = date.month as int;
    let d = date.day as int;
    let em = spec_easter_md(y).0;
    let ed = spec_easter_md(y).1;
    let offset = date.spec_day_number() - day_number_of(y, em, ed);
    let wd = weekday_of_day_number(date.spec_day_number());
    if m == 1 && d == 1 {
        Some(Holiday { date, holiday_type: HolidayType::Public, name: "Nyårsdagen" })
    } else if m == 1 && d == 5 {
        Some(Holiday { date, holiday_type: HolidayType::DeFactoHalf, name: "Trettondagsafton" })
    } else if m == 1 && d == 6 {
        Some(Holiday { date, holiday_type: HolidayType::Public, name: "Trettondagen" })
    } else if m == 4 && d == 30 {
        Some(Holiday { date, holiday_type: HolidayType::DeFactoHalf, name: "Valborgsmässoafton" })
    } else if m == 5 && d == 1 {
        Some(Holiday { date, holiday_type: HolidayType::Public, name: "Första maj" })
    } else if m == 6 && d == 6 {
        Some(Holiday { date, holiday_type: HolidayType::Public, name: "Sveriges nationaldag" })
    } else if m == 12 && d == 24 {
        Some(Holiday { date, holiday_type: HolidayType::DeFacto, name: "Julafton" })
    } else if m == 12 && d == 25 {
        Some(Holiday { date, holiday_type: HolidayType::Public, name: "Juldagen" })
    } else if m == 12 && d == 26 {
        Some(Holiday { date, holiday_type: HolidayType::Public, name: "Annandag jul" })
    } else if m == 12 && d == 31 {
        Some(Holiday { date, holiday_type: HolidayType::DeFacto, name: "Nyårsafton" })
    } else if offset == -3 {
        Some(Holiday { date, holiday_type: HolidayType::DeFactoHalf, name: "Skärtorsdagen" })
    } else if offset == -2 {
        Some(Holiday { date, holiday_type: HolidayType::Public, name: "Långfredagen" })
    } else if offset == -1 {
        Some(Holiday { date, holiday_type: HolidayType::DeFactoHalf, name: "Påskafton" })
    } else if offset == 0 {
        Some(Holiday { date, holiday_type: HolidayType::Public, name: "Påskdagen" })
    } else if offset == 1 {
        Some(Holiday { date, holiday_type: HolidayType::Public, name: "Annandag påsk" })
    } else if offset == 38 {
        Some(
            Holiday { date, holiday_type: HolidayType::DeFactoHalf, name: "Kristi himmelfärdsdag" },
        )
    } else if offset == 39 {
        Some(Holiday { date, holiday_type: HolidayType::Public, name: "Kristi himmelfärdsdag" })
    } else if offset == 49 {
        Some(Holiday { date, holiday_type: HolidayType::Public, name: "Pingstdagen" })
    } else if offset == 50 {
        Some(Holiday { date, holiday_type: HolidayType::Public, name: "Annandag pingst" })
    } else if m == 6 && 20 <= d <= 26 && wd == 5 {
        Some(Holiday { date, holiday_type: HolidayType::DeFacto, name: "Midsommarafton" })
    } else if m == 6 && 20 <= d <= 26 && wd == 6 {
        Some(Holiday { date, holiday_type: HolidayType::Public, name: "Midsommardagen" })
    } else if ((m == 10 && d == 31) || (m == 11 && d <= 6)) && wd == 5 {
        Some(Holiday { date, holiday_type: HolidayType::DeFactoHalf, name: "Allhelgonaafton" })
    } else if ((m == 10 && d == 31) || (m == 11 && d <= 6)) && wd == 6 {
        Some(Holiday { date, holiday_type: HolidayType::Public, name: "Alla helgons dag" })
    } else {
        None
    }
}

/// The Swedish holiday falling on a date, if any.
pub fn is_holiday(date: Date) -> (r: Option<Holiday>)
    requires
        date.wf(),
        date.year <= MAX_EASTER_YEAR,
    ensures
        r == spec_holiday(date),
{
    let m = date.month;
    let d = date.day;
    if m == 1 && d == 1 {
        return Some(Holiday { date, holiday_type: HolidayType::Public, name: "Nyårsdagen" });
    }
    if m == 1 && d == 5 {
        return Some(
            Holiday { date, holiday_type: HolidayType::DeFactoHalf, name: "Trettondagsafton" },
        );
    }
    if m == 1 && d == 6 {
        return Some(Holiday { date, holiday_type: HolidayType::Public, name: "Trettondagen" });
    }
    if m == 4 && d == 30 {
        return Some(
            Holiday { date, holiday_type: HolidayType::DeFactoHalf, name: "Valborgsmässoafton" },
        );
    }
    if m == 5 && d == 1 {
        return Some(Holiday { date, holiday_type: HolidayType::Public, name: "Första maj" });
    }
    if m == 6 && d == 6 {
        return Some(
            Holiday { date, holiday_type: HolidayType::Public, name: "Sveriges nationaldag" },
        );
    }
    if m == 12 && d == 24 {
        return Some(Holiday { date, holiday_type: HolidayType::DeFacto, name: "Julafton" });
    }
    if m == 12 && d == 25 {
        return Some(Holiday { date, holiday_type: HolidayType::Public, name: "Juldagen" });
    }
    if m == 12 && d == 26 {
        return Some(Holiday { date, holiday_type: HolidayType::Public, name: "Annandag jul" });
    }
    if m == 12 && d == 31 {
        return Some(Holiday { date, holiday_type: HolidayType::DeFacto, name: "Nyårsafton" });
    }
    let n = date.day_number();
    let easter = easter_date(date.year);
    let offset: i64 = n - easter.day_number();
    if offset == -3 {
        return Some(
            Holiday { date, holiday_type: HolidayType::DeFactoHalf, name: "Skärtorsdagen" },
        );
    }
    if offset == -2 {
        return Some(Holiday { date, holiday_type: HolidayType::Public, name: "Långfredagen" });
    }
    if offset == -1 {
        return Some(Holiday { date, holiday_type: HolidayType::DeFactoHalf, name: "Påskafton" });
    }
    if offset == 0 {
        return Some(Holiday { date, holiday_type: HolidayType::Public, name: "Påskdagen" });
    }
    if offset == 1 {
        return Some(Holiday { date, holiday_type: HolidayType::Public, name: "Annandag påsk" });
    }
    if offset == 38 {
        return Some(
            Holiday { date, holiday_type: HolidayType::DeFactoHalf, name: "Kristi himmelfärdsdag" },
        );
    }
    if offset == 39 {
        return Some(
            Holiday { date, holiday_type: HolidayType::Public, name: "Kristi himmelfärdsdag" },
        );
    }
    if offset == 49 {
        return Some(Holiday { date, holiday_type: HolidayType::Public, name: "Pingstdagen" });
    }
    if offset == 50 {
        return Some(Holiday { date, holiday_type: HolidayType::Public, name: "Annandag pingst" });
    }
    let wd = crate::date::weekday_ord(n);
    if m == 6 && 20 <= d && d <= 26 && wd == 5 {
        return Some(Holiday { date, holiday_type: HolidayType::DeFacto, name: "Midsommarafton" });
    }
    if m == 6 && 20 <= d && d <= 26 && wd == 6 {
        return Some(Holiday { date, holiday_type: HolidayType::Public, name: "Midsommardagen" });
    }
    if ((m == 10 && d == 31) || (m == 11 && d <= 6)) && wd == 5 {
        return Some(
            Holiday { date, holiday_type: HolidayType::DeFactoHalf, name: "Allhelgonaafton" },
        );
    }
    if ((m == 10 && d == 31) || (m == 11 && d <= 6)) && wd == 6 {
        return Some(Holiday { date, holiday_type: HolidayType::Public, name: "Alla helgons dag" });
    }
    None
}

} // verus!
