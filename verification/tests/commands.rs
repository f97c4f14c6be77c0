use smtu_reminder::calendar::Date;
use smtu_reminder::commands::{
    group_set_message, group_unknown_message, my_schedule_reply, parse_remind_hour,
    resolve_group_number, schedule_message, search_reply, MyScheduleReply, SearchReply,
};
use smtu_reminder::schedule_repo::ScheduleRepo;
use smtu_reminder::structures::{Class, Group, Schedule, ScheduleVariant, Teacher};

fn week() -> [Vec<Class>; 7] {
    [vec![], vec![], vec![], vec![], vec![], vec![], vec![]]
}

fn repo_with_teachers(count: i32) -> ScheduleRepo {
    let mut schedules = vec![Schedule {
        schedule_type: ScheduleVariant::Group(Group { number: 2120, id: 1 }),
        week: week(),
    }];
    for i in 0..count {
        schedules.push(Schedule {
            schedule_type: ScheduleVariant::Teacher(Teacher {
                name: format!("Иванов {i}"),
                position: "доцент".to_string(),
                isu_id: i,
            }),
            week: week(),
        });
    }
    let mut repo = ScheduleRepo::new();
    repo.update(schedules, 1);
    repo
}

#[test]
fn remind_hours_from_16_to_8() {
    for h in 0..9 {
        assert_eq!(parse_remind_hour(&h.to_string()), Some(h));
    }
    for h in 9..16 {
        assert_eq!(parse_remind_hour(&h.to_string()), None);
    }
    for h in 16..24 {
        assert_eq!(parse_remind_hour(&h.to_string()), Some(h));
    }
    assert_eq!(parse_remind_hour("24"), None);
    assert_eq!(parse_remind_hour("-1"), None);
    assert_eq!(parse_remind_hour("+21"), Some(21));
    assert_eq!(parse_remind_hour("вечер"), None);
}

#[test]
fn set_group_resolution_and_messages() {
    let repo = repo_with_teachers(1);
    assert_eq!(resolve_group_number("2120", &repo), Some(2120));
    assert_eq!(resolve_group_number("2121", &repo), None);
    assert_eq!(resolve_group_number("Иванов", &repo), None);
    assert_eq!(group_set_message(2120), "Группа \"2120\" задана.");
    assert_eq!(group_unknown_message("21x"), "Группа \"21x\" не найдена");
}

#[test]
fn search_replies() {
    let repo = repo_with_teachers(12);
    match search_reply(&repo, "Петров") {
        SearchReply::Nothing(m) => assert_eq!(m, "По запросу \"Петров\" ничего не найдено"),
        _ => panic!("expected nothing"),
    }
    match search_reply(&repo, "2120") {
        SearchReply::One(s) => assert!(matches!(&s.schedule_type, ScheduleVariant::Group(g) if g.number == 2120)),
        _ => panic!("expected one"),
    }
    match search_reply(&repo, "иванов") {
        SearchReply::Many(m) => {
            let mut expected = "Найдено несколько вариантов (12). Уточните запрос. Может быть, вы искали:".to_string();
            for i in 0..10 {
                expected.push_str(&format!("\nРасписание преподавателя Иванов {i} (доцент)"));
            }
            assert_eq!(m, expected);
        }
        _ => panic!("expected many"),
    }
}

#[test]
fn my_schedule_replies() {
    let repo = repo_with_teachers(0);
    assert!(matches!(my_schedule_reply(&repo, None), MyScheduleReply::NoGroup));
    match my_schedule_reply(&repo, Some(3)) {
        MyScheduleReply::NotFound(m) => assert_eq!(m, "Расписание для группы \"3\" не найдено"),
        _ => panic!("expected not found"),
    }
    assert!(matches!(my_schedule_reply(&repo, Some(2120)), MyScheduleReply::Found(_)));
}

#[test]
fn schedule_message_for_date() {
    let repo = repo_with_teachers(0);
    let schedule = repo.get_by_group_number(2120).unwrap();
    let date = Date::from_ymd_opt(2026, 2, 2).unwrap();
    let message = schedule_message(schedule, date, date);
    assert_eq!(message.text, "Расписание группы 2120\nПонедельник, 02.02.2026 (нижняя неделя)\nЗанятий нет.");
    assert_eq!(message.keyboard[0][1].text, "сегодня");
    assert_eq!(message.keyboard[0][1].data, "v1|g|2120|2026-02-02|b");
}
