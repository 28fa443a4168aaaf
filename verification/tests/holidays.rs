use maconomy_cli::date::Date;
use maconomy_cli::holidays::{easter_date, is_holiday, HolidayType};

fn date(year: i32, month: u8, day: u8) -> Date {
    Date::new(year, month, day).unwrap()
}

#[test]
fn test_fixed_holidays() {
    // New Year's Day
    let holiday = is_holiday(date(2024, 1, 1)).unwrap();
    assert_eq!(holiday.holiday_type, HolidayType::Public);
    assert_eq!(holiday.name, "Nyårsdagen");

    // Twelfth Night (de facto half)
    let holiday = is_holiday(date(2024, 1, 5)).unwrap();
    assert_eq!(holiday.holiday_type, HolidayType::DeFactoHalf);
    assert_eq!(holiday.name, "Trettondagsafton");

    // Epiphany
    let holiday = is_holiday(date(2024, 1, 6)).unwrap();
    assert_eq!(holiday.holiday_type, HolidayType::Public);
    assert_eq!(holiday.name, "Trettondagen");

    // May Day
    let holiday = is_holiday(date(2024, 5, 1)).unwrap();
    assert_eq!(holiday.holiday_type, HolidayType::Public);
    assert_eq!(holiday.name, "Första maj");

    // Christmas Eve (de facto)
    let holiday = is_holiday(date(2024, 12, 24)).unwrap();
    assert_eq!(holiday.holiday_type, HolidayType::DeFacto);
    assert_eq!(holiday.name, "Julafton");

    // Christmas Day
    let holiday = is_holiday(date(2024, 12, 25)).unwrap();
    assert_eq!(holiday.holiday_type, HolidayType::Public);
    assert_eq!(holiday.name, "Juldagen");

    // Boxing Day
    let holiday = is_holiday(date(2024, 12, 26)).unwrap();
    assert_eq!(holiday.holiday_type, HolidayType::Public);
    assert_eq!(holiday.name, "Annandag jul");

    // New Year's Eve (de facto)
    let holiday = is_holiday(date(2024, 12, 31)).unwrap();
    assert_eq!(holiday.holiday_type, HolidayType::DeFacto);
    assert_eq!(holiday.name, "Nyårsafton");
}

#[test]
fn test_easter_based_holidays_2024() {
    // Easter 2024 is March 31

    // Maundy Thursday (March 28, 2024) - de facto half
    let holiday = is_holiday(date(2024, 3, 28)).unwrap();
    assert_eq!(holiday.holiday_type, HolidayType::DeFactoHalf);
    assert_eq!(holiday.name, "Skärtorsdagen");

    // Good Friday (March 29, 2024)
    let holiday = is_holiday(date(2024, 3, 29)).unwrap();
    assert_eq!(holiday.holiday_type, HolidayType::Public);
    assert_eq!(holiday.name, "Långfredagen");

    // Holy Saturday (March 30, 2024) - de facto half
    let holiday = is_holiday(date(2024, 3, 30)).unwrap();
    assert_eq!(holiday.holiday_type, HolidayType::DeFactoHalf);
    assert_eq!(holiday.name, "Påskafton");

    // Easter Sunday (March 31, 2024)
    let holiday = is_holiday(date(2024, 3, 31)).unwrap();
    assert_eq!(holiday.holiday_type, HolidayType::Public);
    assert_eq!(holiday.name, "Påskdagen");

    // Easter Monday (April 1, 2024)
    let holiday = is_holiday(date(2024, 4, 1)).unwrap();
    assert_eq!(holiday.holiday_type, HolidayType::Public);
    assert_eq!(holiday.name, "Annandag påsk");

    // Ascension Eve (May 8, 2024) - de facto half
    let holiday = is_holiday(date(2024, 5, 8)).unwrap();
    assert_eq!(holiday.holiday_type, HolidayType::DeFactoHalf);
    assert_eq!(holiday.name, "Kristi himmelfärdsdag");

    // Ascension Day (May 9, 2024)
    let holiday = is_holiday(date(2024, 5, 9)).unwrap();
    assert_eq!(holiday.holiday_type, HolidayType::Public);
    assert_eq!(holiday.name, "Kristi himmelfärdsdag");

    // Whit Sunday (May 19, 2024)
    let holiday = is_holiday(date(2024, 5, 19)).unwrap();
    assert_eq!(holiday.holiday_type, HolidayType::Public);
    assert_eq!(holiday.name, "Pingstdagen");

    // Whit Monday (May 20, 2024)
    let holiday = is_holiday(date(2024, 5, 20)).unwrap();
    assert_eq!(holiday.holiday_type, HolidayType::Public);
    assert_eq!(holiday.name, "Annandag pingst");
}

#[test]
fn test_midsummer_2024() {
    // Midsummer Eve 2024 should be June 21 (Friday between June 20-26)
    let holiday = is_holiday(date(2024, 6, 21)).unwrap();
    assert_eq!(holiday.holiday_type, HolidayType::DeFacto);
    assert_eq!(holiday.name, "Midsommarafton");

    // Midsummer Day 2024 should be June 22 (Saturday between June 20-26)
    let holiday = is_holiday(date(2024, 6, 22)).unwrap();
    assert_eq!(holiday.holiday_type, HolidayType::Public);
    assert_eq!(holiday.name, "Midsommardagen");
}

#[test]
fn test_all_saints_2024() {
    // All Saints' Eve 2024 should be November 1 (Friday between Oct 31
    // and Nov 6) - de facto half
    let holiday = is_holiday(date(2024, 11, 1)).unwrap();
    assert_eq!(holiday.holiday_type, HolidayType::DeFactoHalf);
    assert_eq!(holiday.name, "Allhelgonaafton");

    // All Saints' Day 2024 should be November 2 (Saturday between Oct 31
    // and Nov 6)
    let holiday = is_holiday(date(2024, 11, 2)).unwrap();
    assert_eq!(holiday.holiday_type, HolidayType::Public);
    assert_eq!(holiday.name, "Alla helgons dag");
}

#[test]
fn test_valborg_and_national_day() {
    // Valborg (April 30) - de facto half
    let holiday = is_holiday(date(2024, 4, 30)).unwrap();
    assert_eq!(holiday.holiday_type, HolidayType::DeFactoHalf);
    assert_eq!(holiday.name, "Valborgsmässoafton");

    // National Day (June 6)
    let holiday = is_holiday(date(2024, 6, 6)).unwrap();
    assert_eq!(holiday.holiday_type, HolidayType::Public);
    assert_eq!(holiday.name, "Sveriges nationaldag");
}

#[test]
fn test_non_holiday() {
    assert!(is_holiday(date(2024, 3, 15)).is_none());
}

#[test]
fn test_easter_calculation() {
    // Verify Easter dates for a few years
    assert_eq!(easter_date(2024), Date::new(2024, 3, 31).unwrap());
    assert_eq!(easter_date(2023), Date::new(2023, 4, 9).unwrap());
    assert_eq!(easter_date(2025), Date::new(2025, 4, 20).unwrap());
}
