use smtu_reminder::calendar::Date;
use smtu_reminder::callbacks::inline_buttons;
use smtu_reminder::structures::{Group, ScheduleVariant};

#[test]
fn date_validity() {
    assert!(Date::from_ymd_opt(2024, 2, 29).is_some());
    assert!(Date::from_ymd_opt(2023, 2, 29).is_none());
    assert!(Date::from_ymd_opt(1900, 2, 29).is_none());
    assert!(Date::from_ymd_opt(2000, 2, 29).is_some());
    assert!(Date::from_ymd_opt(-4, 2, 29).is_some());
    assert!(Date::from_ymd_opt(2024, 4, 31).is_none());
    assert!(Date::from_ymd_opt(2024, 13, 1).is_none());
    assert!(Date::from_ymd_opt(2024, 0, 1).is_none());
    assert!(Date::from_ymd_opt(2024, 1, 0).is_none());
    assert!(Date::from_ymd_opt(262143, 1, 1).is_none());
    assert!(Date::from_ymd_opt(262142, 12, 31).is_some());
    assert!(Date::from_ymd_opt(-262143, 1, 1).is_some());
    assert!(Date::from_ymd_opt(-262144, 12, 31).is_none());
}

#[test]
fn neighbour_days_through_the_keyboard() {
    let variant = ScheduleVariant::Group(Group { number: 1, id: 1 });
    let texts = |d: Date| -> Vec<String> {
        inline_buttons(&variant, d, d)[0].iter().map(|b| b.text.clone()).collect()
    };
    assert_eq!(texts(Date::from_ymd_opt(2024, 2, 29).unwrap()), vec!["2024-02-28", "сегодня", "2024-03-01"]);
    assert_eq!(texts(Date::from_ymd_opt(2026, 1, 1).unwrap()), vec!["2025-12-31", "сегодня", "2026-01-02"]);
    assert_eq!(texts(Date::from_ymd_opt(10000, 1, 1).unwrap()), vec!["9999-12-31", "сегодня", "+10000-01-02"]);
    assert_eq!(texts(Date::from_ymd_opt(0, 3, 1).unwrap()), vec!["0000-02-29", "сегодня", "0000-03-02"]);
    assert_eq!(texts(Date::from_ymd_opt(-1, 1, 1).unwrap()), vec!["-0002-12-31", "сегодня", "-0001-01-02"]);
}

#[test]
fn edge_days_have_one_neighbour() {
    assert!(Date::from_ymd_opt(2026, 2, 2).unwrap().has_neighbours());
    assert!(!Date::from_ymd_opt(262142, 12, 31).unwrap().has_neighbours());
    assert!(!Date::from_ymd_opt(-262143, 1, 1).unwrap().has_neighbours());
}
