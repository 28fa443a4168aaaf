use maconomy_cli::day::{Day, Days};
use maconomy_cli::day_parser::{day_range, days_in_range, parse_days, DayParseError};

#[test]
fn range_parser_test() {
    let range = "mon-thu";
    let range = day_range(range).unwrap();

    let expected = (Day::Monday, Day::Thursday);
    assert_eq!(range, expected);
}

#[test]
fn invalid_range_parser_test() {
    let range = "tue-mon";
    let result = day_range(range).unwrap();

    let expected = (Day::Tuesday, Day::Monday);
    assert_eq!(result, expected);
}

#[test]
fn days_in_range_test() {
    let range = (Day::Tuesday, Day::Friday);
    let result = days_in_range(&range).unwrap();
    let expected = [Day::Tuesday, Day::Wednesday, Day::Thursday, Day::Friday];

    assert_eq!(result, expected);
}

#[test]
fn days_in_invalid_range_test() {
    let range = (Day::Tuesday, Day::Monday);
    let result = days_in_range(&range);

    assert!(result.is_none());
}

fn exactly(days: &Days, expected: &[Day]) -> bool {
    let all = [
        Day::Monday,
        Day::Tuesday,
        Day::Wednesday,
        Day::Thursday,
        Day::Friday,
        Day::Saturday,
        Day::Sunday,
    ];
    all.iter().all(|d| days.contains(*d) == expected.contains(d))
}

#[test]
fn parses_range_into_day_set() {
    let days = parse_days("mon-thu").unwrap();
    assert!(exactly(&days, &[Day::Monday, Day::Tuesday, Day::Wednesday, Day::Thursday]));
}

#[test]
fn rejects_reversed_range_without_wraparound() {
    assert!(matches!(parse_days("tue-mon"), Err(DayParseError::InvalidRange)));
    assert!(matches!(parse_days("mon-mon"), Err(DayParseError::InvalidRange)));
}

#[test]
fn deduplicates_overlapping_items() {
    let days = parse_days("mon, mon-wed").unwrap();
    assert!(exactly(&days, &[Day::Monday, Day::Tuesday, Day::Wednesday]));
}

#[test]
fn empty_input_is_the_empty_set() {
    let days = parse_days("").unwrap();
    assert!(days.is_empty());
    let days = parse_days("   ").unwrap();
    assert!(days.is_empty());
}

#[test]
fn parses_mixed_days_and_ranges() {
    let days = parse_days("mon, wed-fri").unwrap();
    assert!(exactly(&days, &[Day::Monday, Day::Wednesday, Day::Thursday, Day::Friday]));
    let days = parse_days("saturday, sunday").unwrap();
    assert!(exactly(&days, &[Day::Saturday, Day::Sunday]));
}

#[test]
fn rejects_unknown_day_names() {
    assert!(matches!(parse_days("xyz"), Err(DayParseError::InvalidDay)));
    assert!(matches!(parse_days("m"), Err(DayParseError::InvalidDay)));
    assert!(matches!(parse_days("mon,"), Err(DayParseError::InvalidDay)));
    assert!(matches!(parse_days("mondayy"), Err(DayParseError::InvalidDay)));
}

#[test]
fn day_ordinals_match_the_wire_convention() {
    assert_eq!(Day::Monday.ordinal(), 1);
    assert_eq!(Day::Sunday.ordinal(), 7);
    assert_eq!(Day::from_ordinal(4), Some(Day::Thursday));
    assert_eq!(Day::from_ordinal(0), None);
    assert_eq!(Day::from_ordinal(8), None);
}
