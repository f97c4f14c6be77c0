use smtu_reminder::db::{cache_key, parse_last_updated};
use smtu_reminder::structures::{Class, Group, Schedule, ScheduleVariant, Teacher};

fn week() -> [Vec<Class>; 7] {
    [vec![], vec![], vec![], vec![], vec![], vec![], vec![]]
}

#[test]
fn cache_keys() {
    let g = Schedule { schedule_type: ScheduleVariant::Group(Group { number: 2120, id: 77 }), week: week() };
    let t = Schedule {
        schedule_type: ScheduleVariant::Teacher(Teacher { name: "A".to_string(), position: "B".to_string(), isu_id: 314 }),
        week: week(),
    };
    assert_eq!(cache_key(&g), "group:77");
    assert_eq!(cache_key(&t), "teacher:314");
}

#[test]
fn last_updated_values() {
    assert_eq!(parse_last_updated("1700000000"), Some(1_700_000_000));
    assert_eq!(parse_last_updated("-5"), Some(-5));
    assert_eq!(parse_last_updated("soon"), None);
}
