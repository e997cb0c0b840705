use drip_mailer::date::{Date, DAY_MAX, DAY_MIN};

#[test]
fn epoch_is_day_zero() {
    assert_eq!(Date::from_ymd(1970, 1, 1).unwrap().days, 0);
    assert_eq!(Date::from_ymd(1970, 1, 2).unwrap().days, 1);
    assert_eq!(Date::from_ymd(1969, 12, 31).unwrap().days, -1);
}

#[test]
fn known_day_numbers() {
    assert_eq!(Date::from_ymd(2024, 1, 1).unwrap().days, 19723);
    assert_eq!(Date::from_ymd(2024, 1, 31).unwrap().days, 19753);
    assert_eq!(Date::from_ymd(2000, 1, 1).unwrap().days, 10957);
}

#[test]
fn leap_year_days() {
    assert!(Date::from_ymd(2024, 2, 29).is_some());
    assert!(Date::from_ymd(2023, 2, 29).is_none());
    assert!(Date::from_ymd(2000, 2, 29).is_some());
    assert!(Date::from_ymd(1900, 2, 29).is_none());
}

#[test]
fn invalid_ymd_rejected() {
    assert!(Date::from_ymd(2024, 13, 1).is_none());
    assert!(Date::from_ymd(2024, 0, 1).is_none());
    assert!(Date::from_ymd(2024, 4, 31).is_none());
    assert!(Date::from_ymd(2024, 1, 0).is_none());
    assert!(Date::from_ymd(-1, 1, 1).is_none());
    assert!(Date::from_ymd(10000, 1, 1).is_none());
}

#[test]
fn ymd_roundtrip() {
    for &(y, m, d) in &[
        (1970i64, 1i64, 1i64),
        (2024, 2, 29),
        (1999, 12, 31),
        (0, 1, 1),
        (9999, 12, 31),
        (1983, 6, 15),
    ] {
        let date = Date::from_ymd(y, m, d).unwrap();
        assert_eq!(date.to_ymd(), (y, m, d));
    }
}

#[test]
fn from_day_bounds() {
    assert!(Date::from_day(0).is_some());
    assert!(Date::from_day(DAY_MIN).is_some());
    assert!(Date::from_day(DAY_MAX).is_some());
    assert!(Date::from_day(DAY_MIN - 1).is_none());
    assert!(Date::from_day(DAY_MAX + 1).is_none());
}

#[test]
fn date_to_string_pads() {
    assert_eq!(Date::from_ymd(2024, 1, 31).unwrap().to_string(), "2024-01-31");
    assert_eq!(Date::from_ymd(42, 7, 5).unwrap().to_string(), "0042-07-05");
}
