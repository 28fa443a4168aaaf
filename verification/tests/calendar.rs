use maconomy_cli::clock::{current_week_from, get_week_number, previous_week_from, weekday_set_of, WeekFallbackError};
use maconomy_cli::day::Day;
use maconomy_cli::date::{from_day_number, Date};
use maconomy_cli::week::{weeks_in_year, WeekError, WeekNumber, WeekPart};
use maconomy_cli::week_parser::{parse_week_and_part, WeekAndPart, WeekParseError};

#[test]
fn gets_date_of_first_day_of_week() {
    let dates = [
        (2024, 46, WeekPart::Whole, (2024, 11, 11)),
        (2030, 1, WeekPart::A, (2029, 12, 31)),
        (2028, 23, WeekPart::Whole, (2028, 6, 5)),
    ];

    for (year, week, part, expected) in dates {
        let week_number = WeekNumber::new(week, part, year).unwrap();
        let date = week_number.first_day();

        assert_eq!((date.year, date.month as u32, date.day as u32), expected);
    }
}

#[test]
fn week_of_date_contains_the_date() {
    // Ordinary whole week in the middle of a month.
    let d = Date::new(2024, 11, 13).unwrap();
    let w = WeekNumber::of(&d);
    assert_eq!(w.number, 46);
    assert_eq!(w.year, 2024);
    assert_eq!(w.part, WeekPart::Whole);
    let first = w.first_day();
    assert!(first.day_number() <= d.day_number());
    assert!(d.day_number() <= first.day_number() + 6);
}

#[test]
fn week_spanning_month_has_half_parts() {
    // August 31, 2024 is a Saturday; its week runs August 26 through
    // September 1, so it straddles a month boundary.
    let in_august = Date::new(2024, 8, 31).unwrap();
    let wa = WeekNumber::of(&in_august);
    assert_eq!(wa.number, 35);
    assert_eq!(wa.part, WeekPart::A);

    let in_september = Date::new(2024, 9, 1).unwrap();
    let wb = WeekNumber::of(&in_september);
    assert_eq!(wb.number, 35);
    assert_eq!(wb.part, WeekPart::B);

    // The A half starts at the Monday; the B half starts at the first of
    // the Sunday's month; both lie within the seven ISO days.
    let fa = wa.first_day();
    assert_eq!((fa.year, fa.month, fa.day), (2024, 8, 26));
    let fb = wb.first_day();
    assert_eq!((fb.year, fb.month, fb.day), (2024, 9, 1));
}

#[test]
fn year_end_week_reports_b_half_for_january() {
    // Week 1 of 2030 begins Monday December 31, 2029: January 1 falls in
    // the week's later month, so it reports the B half.
    let jan1 = Date::new(2030, 1, 1).unwrap();
    let w = WeekNumber::of(&jan1);
    assert_eq!((w.number, w.year), (1, 2030));
    assert_eq!(w.part, WeekPart::B);

    let dec31 = Date::new(2029, 12, 31).unwrap();
    let wa = WeekNumber::of(&dec31);
    assert_eq!((wa.number, wa.year), (1, 2030));
    assert_eq!(wa.part, WeekPart::A);
}

#[test]
fn new_rejects_part_inconsistent_with_month_span() {
    // Week 46 of 2024 stays inside November: Whole is accepted, halves
    // are refused.
    assert!(WeekNumber::new(46, WeekPart::Whole, 2024).is_ok());
    assert_eq!(WeekNumber::new(46, WeekPart::A, 2024), Err(WeekError::WrongPart));
    assert_eq!(WeekNumber::new(46, WeekPart::B, 2024), Err(WeekError::WrongPart));

    // Week 35 of 2024 straddles August and September: halves are
    // accepted, Whole is refused.
    assert!(WeekNumber::new(35, WeekPart::A, 2024).is_ok());
    assert!(WeekNumber::new(35, WeekPart::B, 2024).is_ok());
    assert_eq!(WeekNumber::new(35, WeekPart::Whole, 2024), Err(WeekError::WrongPart));

    // A week number the year does not have.
    assert_eq!(WeekNumber::new(0, WeekPart::Whole, 2024), Err(WeekError::InvalidWeek));
    assert_eq!(WeekNumber::new(53, WeekPart::Whole, 2024), Err(WeekError::InvalidWeek));
    assert!(WeekNumber::new(53, WeekPart::Whole, 2026).is_ok() || WeekNumber::new(53, WeekPart::B, 2026).is_ok());
}

#[test]
fn previous_of_b_half_is_a_half() {
    let wb = WeekNumber::new(35, WeekPart::B, 2024).unwrap();
    let prev = wb.previous();
    assert_eq!(prev, WeekNumber { number: 35, part: WeekPart::A, year: 2024 });
}

#[test]
fn previous_of_week_one_rolls_into_prior_year() {
    // Week 1 of 2024 is January 1 through 7, a whole week.
    let w1 = WeekNumber::new(1, WeekPart::Whole, 2024).unwrap();
    let prev = w1.previous();
    assert_eq!(prev.year, 2023);
    assert_eq!(prev.number, weeks_in_year(2023));
    assert_eq!(prev.number, 52);
}

#[test]
fn previous_walks_back_through_halves() {
    // Walking back from week 36 of 2024 visits both halves of the
    // straddling week 35.
    let w36 = WeekNumber::new(36, WeekPart::Whole, 2024).unwrap();
    let p1 = w36.previous();
    assert_eq!((p1.number, p1.part, p1.year), (35, WeekPart::B, 2024));
    let p2 = p1.previous();
    assert_eq!((p2.number, p2.part, p2.year), (35, WeekPart::A, 2024));
    let p3 = p2.previous();
    assert_eq!((p3.number, p3.part, p3.year), (34, WeekPart::Whole, 2024));
}

#[test]
fn repeated_previous_reaches_prior_year() {
    // From week 1, one application reaches the prior year; 52 or 53 more
    // stay within it, because a year holds at least that many
    // addressable weeks-or-halves.
    let mut w = WeekNumber::new(1, WeekPart::Whole, 2024).unwrap();
    for _ in 0..53 {
        w = w.previous();
        assert_eq!(w.year, 2023);
    }
}

#[test]
fn day_numbers_round_trip() {
    let d = Date::new(2024, 2, 29).unwrap();
    let n = d.day_number();
    assert_eq!(from_day_number(n), d);
    assert!(Date::new(2023, 2, 29).is_none());
    assert!(Date::new(2024, 13, 1).is_none());
    assert!(Date::new(2024, 4, 31).is_none());
}

#[test]
fn parses_week_and_part_strings() {
    assert_eq!(
        parse_week_and_part("46"),
        Ok(WeekAndPart { number: Some(46), part: Some(WeekPart::Whole) })
    );
    assert_eq!(
        parse_week_and_part("1A"),
        Ok(WeekAndPart { number: Some(1), part: Some(WeekPart::A) })
    );
    assert_eq!(
        parse_week_and_part("52b"),
        Ok(WeekAndPart { number: Some(52), part: Some(WeekPart::B) })
    );
    assert_eq!(parse_week_and_part(""), Err(WeekParseError::Empty));
    assert_eq!(parse_week_and_part("46C"), Err(WeekParseError::InvalidPart));
    assert_eq!(parse_week_and_part("xA"), Err(WeekParseError::InvalidNumber));
    assert_eq!(parse_week_and_part("300"), Err(WeekParseError::InvalidNumber));
}

#[test]
fn week_fallback_propagates_week_errors() {
    let r = get_week_number(Some(46), Some(WeekPart::A), None, Some(2024));
    assert_eq!(r, Err(WeekFallbackError::Week(WeekError::WrongPart)));
    let r = get_week_number(Some(0), Some(WeekPart::Whole), None, Some(2024));
    assert_eq!(r, Err(WeekFallbackError::Week(WeekError::InvalidWeek)));
}

#[test]
fn a_year_back_is_52_or_53_weeks() {
    // Stepping 52 or 53 whole weeks back from any date reaches the
    // prior week-year; which of the two depends on the years' week
    // counts. The sample covers ordinary dates and the 53-week edge.
    let dates = [(2024, 11, 13), (2021, 1, 1), (2020, 12, 28), (2026, 1, 1), (2028, 1, 3)];
    for (y, m, dd) in dates {
        let d = Date::new(y, m, dd).unwrap();
        let w = WeekNumber::of(&d);
        let n = d.day_number();
        let back52 = WeekNumber::of(&from_day_number(n - 364)).year;
        let back53 = WeekNumber::of(&from_day_number(n - 371)).year;
        assert!(back52 == w.year - 1 || back53 == w.year - 1);
    }
}

#[test]
fn previous_week_from_steps_back_whole_weeks() {
    let d = Date::new(2024, 11, 13).unwrap();
    assert_eq!(
        previous_week_from(d, 0),
        Ok(WeekNumber { number: 46, part: WeekPart::Whole, year: 2024 })
    );
    assert_eq!(
        previous_week_from(d, 1),
        Ok(WeekNumber { number: 45, part: WeekPart::Whole, year: 2024 })
    );

    // Stepping across the turn of the year.
    let early = Date::new(2024, 1, 3).unwrap();
    assert_eq!(
        previous_week_from(early, 1),
        Ok(WeekNumber { number: 52, part: WeekPart::Whole, year: 2023 })
    );

    // Farther back than the calendar's origin.
    let origin = Date::new(1, 1, 5).unwrap();
    assert_eq!(previous_week_from(origin, 1), Err(WeekFallbackError::TooFarBack));

    // Beyond the years whose weeks the model addresses.
    let late = Date::new(9998, 1, 1).unwrap();
    assert_eq!(previous_week_from(late, 1), Err(WeekFallbackError::ClockOutOfRange));
}

#[test]
fn current_week_from_is_the_week_of_the_date() {
    let d = Date::new(2024, 11, 13).unwrap();
    assert_eq!(
        current_week_from(d),
        Ok(WeekNumber { number: 46, part: WeekPart::Whole, year: 2024 })
    );
    let late = Date::new(9998, 1, 1).unwrap();
    assert_eq!(current_week_from(late), Err(WeekFallbackError::ClockOutOfRange));
}

#[test]
fn weekday_set_of_holds_the_single_weekday() {
    // November 13, 2024 is a Wednesday.
    let set = weekday_set_of(Date::new(2024, 11, 13).unwrap());
    assert!(set.contains(Day::Wednesday));
    assert!(!set.contains(Day::Tuesday));
    assert!(!set.contains(Day::Thursday));
    // November 17, 2024 is a Sunday.
    let set = weekday_set_of(Date::new(2024, 11, 17).unwrap());
    assert!(set.contains(Day::Sunday));
    assert!(!set.contains(Day::Monday));
}
