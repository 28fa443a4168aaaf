use maconomy_cli::config::{ConfigError, Configuration};
use maconomy_cli::errors::{error_stack_fmt, u16_to_decimal, ErrorStack};
use maconomy_cli::line_number::{LineNumber, LineNumberError};
use maconomy_cli::protocol::day_field_name;
use maconomy_cli::day::{Day, Days};
use maconomy_cli::week::WeekPart;

#[test]
fn error_stack_fmt_lists_causes_as_bullets() {
    let err = ErrorStack {
        message: "Failed to get time sheet".to_string(),
        sources: vec!["server responded with status 500".to_string(), "timeout".to_string()],
    };
    assert_eq!(
        error_stack_fmt(&err),
        "Failed to get time sheet\n\nError stack:\n  - server responded with status 500\n  - timeout"
    );
}

#[test]
fn error_stack_fmt_without_causes_is_the_message_alone() {
    let err = ErrorStack { message: "Logout failed".to_string(), sources: vec![] };
    assert_eq!(error_stack_fmt(&err), "Logout failed");
}

#[test]
fn status_codes_render_in_decimal() {
    assert_eq!(u16_to_decimal(0), "0");
    assert_eq!(u16_to_decimal(7), "7");
    assert_eq!(u16_to_decimal(401), "401");
    assert_eq!(u16_to_decimal(65535), "65535");
}

#[test]
fn parses_line_numbers_and_the_last_keyword() {
    assert_eq!(LineNumber::parse("last"), Ok(LineNumber::Last));
    assert_eq!(LineNumber::parse("3"), Ok(LineNumber::Number(3)));
    assert_eq!(LineNumber::parse("0"), Err(LineNumberError::Zero));
    assert_eq!(LineNumber::parse("abc"), Err(LineNumberError::Invalid));
    assert_eq!(LineNumber::parse(""), Err(LineNumberError::Invalid));
    assert_eq!(LineNumber::parse("last2"), Err(LineNumberError::Invalid));
}

#[test]
fn configuration_returns_first_binding() {
    let mut config = Configuration::new();
    config.add("maconomy_url".to_string(), "https://example.invalid/api".to_string());
    config.add("company_id".to_string(), "acme".to_string());
    config.add("company_id".to_string(), "shadowed".to_string());

    assert_eq!(config.get_value("maconomy_url").unwrap(), "https://example.invalid/api");
    assert_eq!(config.get_value("company_id").unwrap(), "acme");
    assert_eq!(config.get_value("missing"), Err(ConfigError::Missing));
    assert_eq!(config.get_optional_value("missing"), None);
    assert_eq!(config.get_optional_value("company_id"), Some("acme".to_string()));
}

#[test]
fn day_fields_follow_the_wire_naming() {
    assert_eq!(day_field_name(Day::Monday), "numberday1");
    assert_eq!(day_field_name(Day::Sunday), "numberday7");
}

#[test]
fn current_week_fallback_yields_a_plausible_week() {
    // With no arguments the week comes from the clock; whatever today
    // is, the result is a well-formed week of a real year.
    let week = maconomy_cli::clock::get_week_number(None, None, None, None).unwrap();
    assert!((1..=53).contains(&week.number));
    assert!(week.year >= 2020);

    // Fully explicit arguments ignore the clock.
    let explicit =
        maconomy_cli::clock::get_week_number(Some(46), Some(WeekPart::Whole), None, Some(2024))
            .unwrap();
    assert_eq!((explicit.number, explicit.year), (46, 2024));

    // The previous week lies right before this one.
    let previous = maconomy_cli::clock::nth_previous_week(1).unwrap();
    let current = maconomy_cli::clock::get_week_number(None, None, None, None).unwrap();
    assert!(previous.first_day().day_number() < current.first_day().day_number() + 7);
}

#[test]
fn day_fallback_keeps_an_explicit_day_set() {
    let mut days = Days::empty();
    days.insert(Day::Friday);
    let kept = maconomy_cli::clock::get_days(Some(days)).unwrap();
    assert!(kept.contains(Day::Friday));
    assert!(!kept.contains(Day::Monday));

    // The fallback day comes from the clock: exactly one day is set.
    let today = maconomy_cli::clock::get_days(None).unwrap();
    let count = [
        Day::Monday,
        Day::Tuesday,
        Day::Wednesday,
        Day::Thursday,
        Day::Friday,
        Day::Saturday,
        Day::Sunday,
    ]
    .iter()
    .filter(|d| today.contains(**d))
    .count();
    assert_eq!(count, 1);
}
