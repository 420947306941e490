use tldr::Date;

#[test]
fn valid_dates_are_accepted() {
    let d = Date::from_ymd(2023, 4, 12).unwrap();
    assert_eq!(d.year, 2023);
    assert_eq!(d.month, 4);
    assert_eq!(d.day, 12);
    assert!(Date::from_ymd(2024, 1, 1).is_some());
    assert!(Date::from_ymd(2024, 12, 31).is_some());
}

#[test]
fn month_and_day_bounds_are_enforced() {
    assert!(Date::from_ymd(2023, 0, 1).is_none());
    assert!(Date::from_ymd(2023, 13, 1).is_none());
    assert!(Date::from_ymd(2023, 1, 0).is_none());
    assert!(Date::from_ymd(2023, 1, 32).is_none());
    assert!(Date::from_ymd(2023, 4, 31).is_none());
    assert!(Date::from_ymd(2023, 4, 30).is_some());
}

#[test]
fn february_follows_the_leap_year_rule() {
    assert!(Date::from_ymd(2024, 2, 29).is_some());
    assert!(Date::from_ymd(2023, 2, 29).is_none());
    assert!(Date::from_ymd(1900, 2, 29).is_none());
    assert!(Date::from_ymd(2000, 2, 29).is_some());
    assert!(Date::from_ymd(2023, 2, 28).is_some());
}

#[test]
fn dates_compare_by_fields() {
    let a = Date::from_ymd(2023, 4, 12).unwrap();
    let b = Date::from_ymd(2023, 4, 12).unwrap();
    let c = Date::from_ymd(2023, 4, 13).unwrap();
    assert_eq!(a, b);
    assert_ne!(a, c);
}
