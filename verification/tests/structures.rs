use chrono::{Datelike, NaiveDate};
use smtu_reminder::calendar::Date;
use smtu_reminder::structures::WeekType;

#[test]
fn week_type_from_iso_week_parity() {
    let cases = [
        ("2026-01-26", WeekType::Top),
        ("2026-02-01", WeekType::Top),
        ("2026-02-02", WeekType::Bottom),
        ("2026-02-08", WeekType::Bottom),
    ];

    for (date, expected) in cases {
        let date = NaiveDate::parse_from_str(date, "%Y-%m-%d").unwrap();
        let date = Date::from_ymd_opt(date.year(), date.month(), date.day()).unwrap();
        let actual = WeekType::for_date(date);
        assert_eq!(actual, expected);
    }
}

#[test]
fn week_type_for_date_around_new_year() {
    // 2020-12-31 lies in ISO week 53 of 2020, 2021-01-04 in week 1 of 2021.
    assert_eq!(WeekType::for_date(Date::from_ymd_opt(2020, 12, 31).unwrap()), WeekType::Top);
    assert_eq!(WeekType::for_date(Date::from_ymd_opt(2021, 1, 4).unwrap()), WeekType::Top);
    assert_eq!(WeekType::for_date(Date::from_ymd_opt(2021, 1, 11).unwrap()), WeekType::Bottom);
}

#[test]
fn week_type_russian_names() {
    assert_eq!(WeekType::Top.to_ru_string(), "верхняя");
    assert_eq!(WeekType::Bottom.to_ru_string(), "нижняя");
    assert_eq!(WeekType::All.to_ru_string(), "обе");
}
