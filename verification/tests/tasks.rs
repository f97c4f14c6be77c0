use smtu_reminder::calendar::Date;
use smtu_reminder::db::UserRow;
use smtu_reminder::schedule_repo::ScheduleRepo;
use smtu_reminder::structures::{Class, Group, Schedule, ScheduleVariant};
use smtu_reminder::tasks::{
    after_fetch, duration_until_next_hour, next_fetch_step, reminder_date, reminder_text, FetchStep,
};

#[test]
fn fetch_steps() {
    assert_eq!(next_fetch_step(1000, None), FetchStep::Fetch);
    assert_eq!(next_fetch_step(1000, Some(1000)), FetchStep::Sleep(43200));
    assert_eq!(next_fetch_step(50_000, Some(10_000)), FetchStep::Sleep(3200));
    assert_eq!(next_fetch_step(53_200, Some(10_000)), FetchStep::Fetch);
    assert_eq!(next_fetch_step(0, Some(10)), FetchStep::Fetch);
    assert_eq!(next_fetch_step(i64::MAX, Some(i64::MIN)), FetchStep::Fetch);
}

#[test]
fn fetch_backoff() {
    assert_eq!(after_fetch(3, true), (0, 43200));
    assert_eq!(after_fetch(0, false), (1, 300));
    assert_eq!(after_fetch(4, false), (5, 1500));
}

#[test]
fn wait_until_next_hour() {
    assert_eq!(duration_until_next_hour(0, 0, 0), (3600, 0));
    assert_eq!(duration_until_next_hour(59, 59, 0), (1, 0));
    assert_eq!(duration_until_next_hour(30, 15, 250_000_000), (1784, 750_000_000));
    assert_eq!(duration_until_next_hour(59, 59, 1_500_000_000), (3600, 0));
}

#[test]
fn reminders() {
    let today = Date::from_ymd_opt(2026, 2, 1).unwrap();
    assert_eq!(reminder_date(today, 11), today);
    assert_eq!(reminder_date(today, 12), Date::from_ymd_opt(2026, 2, 2).unwrap());

    let mut week: [Vec<Class>; 7] = [vec![], vec![], vec![], vec![], vec![], vec![], vec![]];
    week[0] = vec![];
    let mut repo = ScheduleRepo::new();
    repo.update(vec![Schedule { schedule_type: ScheduleVariant::Group(Group { number: 7, id: 1 }), week }], 1);
    let monday = Date::from_ymd_opt(2026, 2, 2).unwrap();
    assert_eq!(reminder_text(&repo, &UserRow { telegram_id: 1, group_number: None }, monday), None);
    assert_eq!(reminder_text(&repo, &UserRow { telegram_id: 1, group_number: Some(8) }, monday), None);
    assert_eq!(
        reminder_text(&repo, &UserRow { telegram_id: 1, group_number: Some(7) }, monday).unwrap(),
        "Расписание группы 7\nПонедельник, 02.02.2026 (нижняя неделя)\nЗанятий нет."
    );
}
