use ha_mitaffald::dates::{days_in_month, infer_date, parse_day_month, resolve_day_month, Date};
use ha_mitaffald::mitaffald::resolve_raw_next_empty;

fn date(year: u32, month: u32, day: u32) -> Date {
    Date::new(year, month, day).expect("valid date")
}

#[test]
fn formats_dates_zero_padded() {
    assert_eq!(date(2024, 8, 4).format_ymd(), "2024-08-04");
    assert_eq!(date(2024, 4, 18).format_ymd(), "2024-04-18");
    assert_eq!(date(987, 12, 31).format_ymd(), "0987-12-31");
}

#[test]
fn calendar_validity() {
    assert!(Date::new(2024, 2, 29).is_some());
    assert!(Date::new(2023, 2, 29).is_none());
    assert!(Date::new(1900, 2, 29).is_none());
    assert!(Date::new(2000, 2, 29).is_some());
    assert!(Date::new(2024, 4, 31).is_none());
    assert!(Date::new(2024, 13, 1).is_none());
    assert!(Date::new(2024, 1, 0).is_none());
    assert!(Date::new(0, 1, 1).is_none());
    assert!(Date::new(10000, 1, 1).is_none());
    assert_eq!(days_in_month(2024, 2), 29);
    assert_eq!(days_in_month(2100, 2), 28);
    assert_eq!(days_in_month(2024, 11), 30);
    assert_eq!(days_in_month(2024, 12), 31);
}

#[test]
fn chronological_order() {
    assert!(date(2024, 4, 18).le(&date(2024, 8, 4)));
    assert!(!date(2024, 8, 4).le(&date(2024, 4, 18)));
    assert!(date(2024, 5, 9).le(&date(2024, 5, 9)));
    assert!(date(2023, 12, 31).lt(&date(2024, 1, 1)));
    assert!(!date(2024, 5, 9).lt(&date(2024, 5, 9)));
}

#[test]
fn pair_equal_to_today_stays_in_the_current_year() {
    let today = date(2024, 6, 15);
    let resolved = infer_date(15, 6, &today).expect("a proper date");
    assert_eq!(resolved, date(2024, 6, 15));
}

#[test]
fn pair_already_passed_rolls_to_next_year() {
    let today = date(2024, 6, 15);
    assert_eq!(infer_date(14, 6, &today), Some(date(2025, 6, 14)));
    assert_eq!(infer_date(1, 3, &today), Some(date(2025, 3, 1)));
}

#[test]
fn other_pairs_stay_in_the_current_year() {
    let today = date(2024, 6, 15);
    // day not yet passed
    assert_eq!(infer_date(16, 6, &today), Some(date(2024, 6, 16)));
    // month after the current one
    assert_eq!(infer_date(1, 7, &today), Some(date(2024, 7, 1)));
    // earlier day but later month still stays, as the rule demands
    assert_eq!(infer_date(2, 12, &today), Some(date(2024, 12, 2)));
}

#[test]
fn rolled_over_leap_day_can_be_improper() {
    // 29 February, already passed in a year whose successor is no leap year
    let today = date(2024, 3, 30);
    assert_eq!(infer_date(29, 2, &today), None);
    // but kept in the current, leap year when not yet passed by the rule
    let today = date(2024, 3, 1);
    assert_eq!(infer_date(29, 2, &today), Some(date(2024, 2, 29)));
}

#[test]
fn parses_the_legacy_day_month_rendering() {
    assert_eq!(parse_day_month("04/08"), Some((4, 8)));
    assert_eq!(parse_day_month("31/12"), Some((31, 12)));
    assert_eq!(parse_day_month("00/00"), Some((0, 0)));
    assert_eq!(parse_day_month("4/8"), None);
    assert_eq!(parse_day_month("04-08"), None);
    assert_eq!(parse_day_month("04/081"), None);
    assert_eq!(parse_day_month("ab/cd"), None);
    assert_eq!(parse_day_month(""), None);
}

#[test]
fn resolves_the_raw_next_empty_field() {
    let resolved = resolve_raw_next_empty("05/11").expect("5 November always resolves");
    assert_eq!(resolved.day, 5);
    assert_eq!(resolved.month, 11);
    // malformed or improper fields resolve to nothing
    assert_eq!(resolve_raw_next_empty("5/11"), None);
    assert_eq!(resolve_raw_next_empty("31/02"), None);
    assert_eq!(resolve_raw_next_empty("00/05"), None);
}

#[test]
fn resolving_against_the_clock_keeps_day_and_month() {
    let resolved = resolve_day_month(5, 11).expect("5 November always resolves");
    assert_eq!(resolved.day, 5);
    assert_eq!(resolved.month, 11);
    assert!(resolved.year >= 2024);
}
