use smtu_reminder::calendar::Date;
use smtu_reminder::formatting::{
    format_audience, format_class_title, format_time_range, matches_week_type, ScheduleFormatting,
};
use smtu_reminder::structures::{Class, ClassTime, Group, Schedule, ScheduleVariant, Teacher, WeekType};

fn class(subject: &str, week_type: WeekType, teacher: &str, note: &str) -> Class {
    Class {
        location: "Лоцманская".to_string(),
        room: "301".to_string(),
        teacher: teacher.to_string(),
        group_number: 2120,
        time: ClassTime { time_from: "08:30".to_string(), time_to: "10:00".to_string() },
        week_type,
        subject: subject.to_string(),
        class_type: " лекция ".to_string(),
        note: note.to_string(),
    }
}

fn group_schedule() -> Schedule {
    let mut week: [Vec<Class>; 7] = [vec![], vec![], vec![], vec![], vec![], vec![], vec![]];
    week[0] = vec![
        class("Математика", WeekType::Top, "  Иванов И. И. ", ""),
        class("Физика", WeekType::Bottom, "", "поток"),
        class("История", WeekType::All, "Петров П. П.", ""),
    ];
    Schedule { schedule_type: ScheduleVariant::Group(Group { number: 2120, id: 77 }), week }
}

fn monday() -> Date {
    Date::from_ymd_opt(2026, 2, 2).unwrap()
}

#[test]
fn format_for_day_bottom_week() {
    let text = group_schedule().format_for_day(monday(), WeekType::Bottom);
    assert_eq!(
        text,
        "Расписание группы 2120\nПонедельник, 02.02.2026 (нижняя неделя)\n\n\
         08:30-10:00 - Физика (лекция)\nПреподаватель: не указан\nАуд.: Лоцманская 301\nПримечание: поток\n\n\
         08:30-10:00 - История (лекция)\nПреподаватель: Петров П. П.\nАуд.: Лоцманская 301"
    );
}

#[test]
fn format_for_day_both_weeks_marks_week() {
    let text = group_schedule().format_for_day(monday(), WeekType::All);
    assert_eq!(
        text,
        "Расписание группы 2120\nПонедельник, 02.02.2026 (обе недели)\n\n\
         08:30-10:00 - Математика (лекция)\nПреподаватель: Иванов И. И.\nАуд.: Лоцманская 301\nНеделя: верхняя\n\n\
         08:30-10:00 - Физика (лекция)\nПреподаватель: не указан\nАуд.: Лоцманская 301\nНеделя: нижняя\nПримечание: поток\n\n\
         08:30-10:00 - История (лекция)\nПреподаватель: Петров П. П.\nАуд.: Лоцманская 301"
    );
}

#[test]
fn format_for_day_without_classes() {
    let tuesday = Date::from_ymd_opt(2026, 2, 3).unwrap();
    let text = group_schedule().format_for_day(tuesday, WeekType::Top);
    assert_eq!(text, "Расписание группы 2120\nВторник, 03.02.2026 (верхняя неделя)\nЗанятий нет.");
}

#[test]
fn format_for_teacher_shows_group() {
    let mut week: [Vec<Class>; 7] = [vec![], vec![], vec![], vec![], vec![], vec![], vec![]];
    week[6] = vec![class("Сопромат", WeekType::Top, "", "")];
    let schedule = Schedule {
        schedule_type: ScheduleVariant::Teacher(Teacher {
            name: "Сидоров С. С.".to_string(),
            position: "доцент".to_string(),
            isu_id: 9,
        }),
        week,
    };
    let sunday = Date::from_ymd_opt(2026, 2, 8).unwrap();
    assert_eq!(schedule.format_info(), "Расписание преподавателя Сидоров С. С. (доцент)");
    assert_eq!(
        schedule.format_for_day(sunday, WeekType::Top),
        "Расписание преподавателя Сидоров С. С. (доцент)\nВоскресенье, 08.02.2026 (верхняя неделя)\n\n\
         08:30-10:00 - Сопромат (лекция)\nГруппа: 2120\nАуд.: Лоцманская 301"
    );
}

#[test]
fn formatting_helpers() {
    assert_eq!(format_audience("", ""), "не указана");
    assert_eq!(format_audience("Спортивный корпус", ""), "Спортивный корпус ");
    assert_eq!(format_time_range("8:30", "10:00"), "8:30-10:00");
    assert_eq!(format_class_title(&class("Химия", WeekType::All, "", "")), "Химия (лекция)");
    assert!(matches_week_type(&WeekType::All, &WeekType::Top));
    assert!(matches_week_type(&WeekType::Top, &WeekType::All));
    assert!(!matches_week_type(&WeekType::Top, &WeekType::Bottom));
    assert!(!matches_week_type(&WeekType::Bottom, &WeekType::Top));
}
