use smtu_reminder::schedule_repo::{restore_schedule_cache, ScheduleRepo};
use smtu_reminder::structures::{Class, Group, Schedule, ScheduleVariant, Teacher};

fn week() -> [Vec<Class>; 7] {
    [vec![], vec![], vec![], vec![], vec![], vec![], vec![]]
}

fn group(number: i32, id: i32) -> Schedule {
    Schedule { schedule_type: ScheduleVariant::Group(Group { number, id }), week: week() }
}

fn teacher(name: &str, isu_id: i32) -> Schedule {
    Schedule {
        schedule_type: ScheduleVariant::Teacher(Teacher {
            name: name.to_string(),
            position: "доцент".to_string(),
            isu_id,
        }),
        week: week(),
    }
}

fn group_id(s: &Schedule) -> Option<i32> {
    match &s.schedule_type {
        ScheduleVariant::Group(g) => Some(g.id),
        ScheduleVariant::Teacher(_) => None,
    }
}

fn teacher_name(s: &Schedule) -> Option<&str> {
    match &s.schedule_type {
        ScheduleVariant::Teacher(t) => Some(t.name.as_str()),
        ScheduleVariant::Group(_) => None,
    }
}

fn sample() -> ScheduleRepo {
    let mut repo = ScheduleRepo::new();
    repo.update(
        vec![
            group(2120, 1),
            teacher("Иванов Иван", 10),
            group(2121, 2),
            teacher("Петров Иван", 11),
            group(2120, 3),
            teacher("Сидорова Анна", 10),
        ],
        1_700_000_000,
    );
    repo
}

#[test]
fn new_repo_is_empty() {
    let repo = ScheduleRepo::new();
    assert_eq!(repo.last_updated(), None);
    assert!(repo.get_by_group_number(2120).is_none());
    assert!(repo.get_by_isu_id(1).is_none());
    assert!(repo.search("2120").is_empty());
    assert!(repo.search("иван").is_empty());
}

#[test]
fn update_then_lookups_find_the_last_match() {
    let repo = sample();
    assert_eq!(repo.last_updated(), Some(1_700_000_000));
    assert_eq!(group_id(repo.get_by_group_number(2120).unwrap()), Some(3));
    assert_eq!(group_id(repo.get_by_group_number(2121).unwrap()), Some(2));
    assert!(repo.get_by_group_number(9999).is_none());
    assert_eq!(teacher_name(repo.get_by_isu_id(10).unwrap()), Some("Сидорова Анна"));
    assert_eq!(teacher_name(repo.get_by_isu_id(11).unwrap()), Some("Петров Иван"));
    assert!(repo.get_by_isu_id(12).is_none());
}

#[test]
fn search_by_number_and_by_name() {
    let repo = sample();
    let found = repo.search("2120");
    assert_eq!(found.len(), 1);
    assert_eq!(group_id(found[0]), Some(3));
    assert!(repo.search("2122").is_empty());
    let found: Vec<Option<&str>> = repo.search("ИВАН").into_iter().map(teacher_name).collect();
    assert_eq!(found, vec![Some("Иванов Иван"), Some("Петров Иван")]);
    let found: Vec<Option<&str>> = repo.search("").into_iter().map(teacher_name).collect();
    assert_eq!(found.len(), 3);
    assert!(repo.search("Кузнецов").is_empty());
}

#[test]
fn update_replaces_everything() {
    let mut repo = sample();
    repo.update(vec![group(1, 1)], 5);
    assert_eq!(repo.last_updated(), Some(5));
    assert!(repo.get_by_group_number(2120).is_none());
    assert!(repo.search("иван").is_empty());
}

#[test]
fn restore_needs_schedules_and_time() {
    let mut repo = ScheduleRepo::new();
    restore_schedule_cache(&mut repo, vec![group(1, 1)], None);
    assert_eq!(repo.last_updated(), None);
    restore_schedule_cache(&mut repo, vec![], Some(3));
    assert_eq!(repo.last_updated(), None);
    restore_schedule_cache(&mut repo, vec![group(1, 1)], Some(3));
    assert_eq!(repo.last_updated(), Some(3));
    assert!(repo.get_by_group_number(1).is_some());
}

#[test]
fn update_forgets_history() {
    let fresh = || vec![group(2120, 1), teacher("Петров Пётр", 7)];
    let mut a = sample();
    a.update(vec![teacher("Иванов", 9), group(1, 1)], 5);
    a.update(fresh(), 300);
    let mut b = ScheduleRepo::new();
    b.update(fresh(), 300);
    b.update(fresh(), 300);
    assert_eq!(a.last_updated(), b.last_updated());
    for query in ["2120", "1", "петр", "иванов", ""] {
        assert_eq!(a.search(query).len(), b.search(query).len(), "{query}");
    }
    assert_eq!(a.get_by_group_number(2120).and_then(group_id), b.get_by_group_number(2120).and_then(group_id));
    assert!(a.get_by_group_number(1).is_none() && b.get_by_group_number(1).is_none());
    assert!(a.get_by_isu_id(9).is_none() && b.get_by_isu_id(9).is_none());
    assert_eq!(a.get_by_isu_id(7).and_then(teacher_name), Some("Петров Пётр"));
    assert_eq!(b.get_by_isu_id(7).and_then(teacher_name), Some("Петров Пётр"));
}
