use smtu_reminder::parser::groups::{
    group_from_entry, group_from_parts, groups_from_entries, parse_groups_page, process_group, GroupEntry,
};
use smtu_reminder::parser::schedule::{
    class_from_cells, class_from_row, classes_from_rows, day_of_card, day_ordinal, parse_schedule_page,
    parse_week_type, process_class, process_day, schedule_url, schedule_variants, week_from_cards, Card,
    Row,
};
use smtu_reminder::parser::teachers::{
    parse_search_key, parse_teachers_page, process_teacher, search_key_from_values, teacher_from_entry,
    teacher_from_parts, teachers_from_links, TeacherLink,
};
use smtu_reminder::parser::{element_text, selector, ParseError};
use smtu_reminder::structures::{Group, ScheduleVariant, Teacher, WeekType};

#[test]
fn groups_page() {
    let html = r#"<html><body>
        <div class="gr"><a href="/ru/viewschedule/101/">2120</a></div>
        <div class="gr"><a href="/ru/viewschedule/ 102 /"> 2121 </a></div>
    </body></html>"#;
    let groups = parse_groups_page(html).unwrap();
    assert_eq!(groups.len(), 2);
    assert_eq!((groups[0].number, groups[0].id), (2120, 101));
    assert_eq!((groups[1].number, groups[1].id), (2121, 102));

    assert_eq!(parse_groups_page(r#"<div class="gr">2120</div>"#).err(), Some(ParseError::GroupHasNoLink));
    assert_eq!(parse_groups_page(r#"<div class="gr"><a>2120</a></div>"#).err(), Some(ParseError::GroupHasNoHref));
    assert_eq!(parse_groups_page(r#"<div class="gr"><a href="x">2120</a></div>"#).err(), Some(ParseError::InvalidHrefFormat));
    assert_eq!(parse_groups_page(r#"<div class="gr"><a href="/a/b/">2120</a></div>"#).err(), Some(ParseError::IdNotANumber));
    assert_eq!(parse_groups_page(r#"<div class="gr"><a href="/a/1/">group</a></div>"#).err(), Some(ParseError::GroupNumberNotANumber));
    assert!(parse_groups_page("<html></html>").unwrap().is_empty());
}

#[test]
fn group_from_link_parts() {
    let g = group_from_parts("/ru/viewschedule/55/", " 3310\n").unwrap();
    assert_eq!((g.number, g.id), (3310, 55));
    assert_eq!(group_from_parts("55", "3310").err(), Some(ParseError::InvalidHrefFormat));
}

#[test]
fn teachers_page() {
    let html = r#"<div class="pt-2 pb-4">
        <a href="/ru/viewperson/314/">Иванов Иван Иванович (доцент (к.т.н.))</a>
        <a href="/ru/viewperson/15/"> Петров П. П. </a>
    </div>"#;
    let teachers = parse_teachers_page(html).unwrap();
    assert_eq!(teachers.len(), 2);
    assert_eq!(teachers[0].name, "Иванов Иван Иванович");
    assert_eq!(teachers[0].position, "доцент (к.т.н.");
    assert_eq!(teachers[0].isu_id, 314);
    assert_eq!(teachers[1].name, "Петров П. П.");
    assert_eq!(teachers[1].position, "");
    assert_eq!(parse_teachers_page("<div></div>").err(), Some(ParseError::TeachersListEmpty));
    assert_eq!(
        parse_teachers_page(r#"<div class="pt-2 pb-4"><a>X</a></div>"#).err(),
        Some(ParseError::TeacherHasNoHref)
    );
    assert_eq!(
        parse_teachers_page(r#"<div class="pt-2 pb-4"><a href="/p/ 1/">X</a></div>"#).err(),
        Some(ParseError::IsuIdNotANumber)
    );
}

#[test]
fn teacher_from_link_parts() {
    let t = teacher_from_parts("/p/7/", "  Орлов О. (ассистент)").unwrap();
    assert_eq!((t.name.as_str(), t.position.as_str(), t.isu_id), ("Орлов О.", "ассистент", 7));
}

#[test]
fn search_key_input() {
    let html = r#"<form><input name="search_key"><input name="search_key" value="abc123"></form>"#;
    assert_eq!(parse_search_key(html).unwrap(), "abc123");
    assert_eq!(parse_search_key("<form></form>").err(), Some(ParseError::SearchKeyNotFound));
}

#[test]
fn day_names_and_week_titles() {
    assert_eq!(day_ordinal(" Понедельник "), Some(0));
    assert_eq!(day_ordinal("Среда"), Some(2));
    assert_eq!(day_ordinal("Воскресенье"), Some(6));
    assert_eq!(day_ordinal("Monday"), None);
    assert_eq!(parse_week_type(" Обе недели "), Ok(WeekType::All));
    assert_eq!(parse_week_type("Верхняя неделя"), Ok(WeekType::Top));
    assert_eq!(parse_week_type("Нижняя неделя"), Ok(WeekType::Bottom));
    assert_eq!(parse_week_type("Каждая неделя"), Err(ParseError::UnknownWeekType));
}

#[test]
fn class_cells() {
    let c = class_from_cells(
        " 08:30 - 10:00 ",
        Some("Верхняя неделя"),
        " Спортивный корпус ",
        "\n2120\n",
        &vec!["  ", "Физкультура", "\n практика ", "", "поток 1", "лишнее"],
        "\n Иванов И. И.\n",
    )
    .unwrap();
    assert_eq!(c.time.time_from, "08:30");
    assert_eq!(c.time.time_to, "10:00");
    assert_eq!(c.week_type, WeekType::Top);
    assert_eq!(c.location, "Спортивный корпус");
    assert_eq!(c.room, "");
    assert_eq!(c.group_number, 2120);
    assert_eq!(c.subject, "Физкультура");
    assert_eq!(c.class_type, "практика");
    assert_eq!(c.note, "поток 1");
    assert_eq!(c.teacher, "Иванов И. И.");

    let d = class_from_cells("12:00", Some("Обе недели"), "Лоцманская 301 а", "1", &vec![], "").unwrap();
    assert_eq!(d.time.time_from, "12:00");
    assert_eq!(d.time.time_to, "");
    assert_eq!(d.location, "Лоцманская");
    assert_eq!(d.room, "301 а");
    assert_eq!(d.subject, "");

    let e = class_from_cells("", Some("Обе недели"), "Дистанционно", "1", &vec![], "").unwrap();
    assert_eq!((e.location.as_str(), e.room.as_str()), ("Дистанционно", ""));

    assert_eq!(class_from_cells("", None, "", "1", &vec![], "").err(), Some(ParseError::ClassHasNoWeekTypeTitle));
    assert_eq!(class_from_cells("", Some("?"), "", "1", &vec![], "").err(), Some(ParseError::UnknownWeekType));
    assert_eq!(class_from_cells("", Some("Обе недели"), "", "x", &vec![], "").err(), Some(ParseError::GroupNumberNotANumber));
}

#[test]
fn schedule_page() {
    let html = r#"<html><body>
    <div class="card my-4">
      <div class="card-header">
        Вторник
      </div>
      <table><tbody>
        <tr>
          <th scope="row">10:10-11:40</th>
          <td><i data-bs-title="Нижняя неделя"></i></td>
          <td>Ленинский 101</td>
          <td>2120</td>
          <td><span>Физика</span><span>лабораторная</span></td>
          <td>Петров П. П.</td>
        </tr>
      </tbody></table>
    </div>
    </body></html>"#;
    let variant = ScheduleVariant::Group(Group { number: 2120, id: 7 });
    let schedule = parse_schedule_page(html, variant).unwrap();
    assert!(schedule.week[0].is_empty());
    assert_eq!(schedule.week[1].len(), 1);
    let c = &schedule.week[1][0];
    assert_eq!((c.time.time_from.as_str(), c.time.time_to.as_str()), ("10:10", "11:40"));
    assert_eq!(c.week_type, WeekType::Bottom);
    assert_eq!((c.location.as_str(), c.room.as_str()), ("Ленинский", "101"));
    assert_eq!(c.subject, "Физика");
    assert_eq!(c.class_type, "лабораторная");
    assert_eq!(c.teacher, "Петров П. П.");

    let no_header = r#"<div class="card my-4"><table><tbody></tbody></table></div>"#;
    let v = ScheduleVariant::Group(Group { number: 1, id: 1 });
    assert_eq!(parse_schedule_page(no_header, v).err(), Some(ParseError::DayHasNoHeader));
    let bad_day = r#"<div class="card my-4"><div class="card-header">Funday</div></div>"#;
    let v = ScheduleVariant::Group(Group { number: 1, id: 1 });
    assert_eq!(parse_schedule_page(bad_day, v).err(), Some(ParseError::UnknownDayName));
    let no_body = r#"<div class="card my-4"><div class="card-header">Среда</div></div>"#;
    let v = ScheduleVariant::Group(Group { number: 1, id: 1 });
    assert_eq!(parse_schedule_page(no_body, v).err(), Some(ParseError::DayHasNoTableBody));
    let short_row = r#"<div class="card my-4"><div class="card-header">Среда</div>
        <table><tbody><tr><th scope="row">1-2</th><td></td><td></td></tr></tbody></table></div>"#;
    let v = ScheduleVariant::Group(Group { number: 1, id: 1 });
    assert_eq!(parse_schedule_page(short_row, v).err(), Some(ParseError::ClassHasNoGroupCell));
    let no_time = r#"<div class="card my-4"><div class="card-header">Среда</div>
        <table><tbody><tr><td></td></tr></tbody></table></div>"#;
    let v = ScheduleVariant::Group(Group { number: 1, id: 1 });
    assert_eq!(parse_schedule_page(no_time, v).err(), Some(ParseError::ClassHasNoTimeCell));
}

#[test]
fn schedule_urls_and_variants() {
    let g = ScheduleVariant::Group(Group { number: 2120, id: 101 });
    let t = ScheduleVariant::Teacher(Teacher { name: "A".to_string(), position: String::new(), isu_id: 314 });
    assert_eq!(schedule_url("https://h", "/g/", "/t/", &g), "https://h/g/101/");
    assert_eq!(schedule_url("https://h", "/g/", "/t/", &t), "https://h/t/314/");

    let groups = vec![Group { number: 1, id: 10 }, Group { number: 2, id: 20 }];
    let teachers = vec![Teacher { name: "B".to_string(), position: String::new(), isu_id: 5 }];
    let variants = schedule_variants(groups, teachers);
    assert_eq!(variants.len(), 3);
    assert!(matches!(&variants[0], ScheduleVariant::Group(g) if g.id == 10));
    assert!(matches!(&variants[1], ScheduleVariant::Group(g) if g.id == 20));
    assert!(matches!(&variants[2], ScheduleVariant::Teacher(t) if t.isu_id == 5));
}

#[test]
fn short_rows_name_the_missing_cell() {
    let row = |cells: &str| {
        format!(
            r#"<div class="card my-4"><div class="card-header">Среда</div>
            <table><tbody><tr><th scope="row">1-2</th>{cells}</tr></tbody></table></div>"#
        )
    };
    let variant = || ScheduleVariant::Group(Group { number: 1, id: 1 });
    assert_eq!(parse_schedule_page(&row(""), variant()).err(), Some(ParseError::ClassHasNoWeekTypeCell));
    assert_eq!(parse_schedule_page(&row("<td></td>"), variant()).err(), Some(ParseError::ClassHasNoRoomCell));
    assert_eq!(
        parse_schedule_page(&row("<td></td><td></td><td></td>"), variant()).err(),
        Some(ParseError::ClassHasNoSubjectCell)
    );
    assert_eq!(
        parse_schedule_page(&row("<td></td><td></td><td></td><td></td>"), variant()).err(),
        Some(ParseError::ClassHasNoTeacherCell)
    );
    assert_eq!(
        parse_schedule_page(&row("<td></td><td></td><td></td><td></td><td></td>"), variant()).err(),
        Some(ParseError::ClassHasNoWeekTypeTitle)
    );
    assert_eq!(
        parse_schedule_page(&row(r#"<td><i data-bs-title="Обе недели"></i></td><td></td><td>x</td><td></td><td></td>"#), variant()).err(),
        Some(ParseError::GroupNumberNotANumber)
    );
}

#[test]
fn entry_parts_decide_the_outcome() {
    assert_eq!(group_from_entry(None, "1").err(), Some(ParseError::GroupHasNoLink));
    assert_eq!(group_from_entry(Some(None), "1").err(), Some(ParseError::GroupHasNoHref));
    let g = group_from_entry(Some(Some("/grp/77/")), " 2151 ").unwrap();
    assert_eq!((g.number, g.id), (2151, 77));
    assert_eq!(teacher_from_entry(None, "A (B)").err(), Some(ParseError::TeacherHasNoHref));
    let t = teacher_from_entry(Some("/person/12/"), "Иванов И. И. (доцент)").unwrap();
    assert_eq!((t.name.as_str(), t.position.as_str(), t.isu_id), ("Иванов И. И.", "доцент", 12));
}

#[test]
fn search_key_is_the_first_present_value() {
    assert_eq!(search_key_from_values(&vec![]).err(), Some(ParseError::SearchKeyNotFound));
    assert_eq!(search_key_from_values(&vec![None, None]).err(), Some(ParseError::SearchKeyNotFound));
    assert_eq!(search_key_from_values(&vec![None, Some("k1"), Some("k2")]), Ok("k1".to_string()));
}

#[test]
fn element_text_joins_the_pieces() {
    assert_eq!(element_text(&vec!["Пон", "едельник", " "]), "Понедельник ");
    assert_eq!(element_text(&vec![]), "");
}

#[test]
fn selectors_of_the_pages_parse() {
    for pattern in [".gr", "a", ".pt-2.pb-4 a", "input[name=\"search_key\"]", ".card.my-4", ".card-header", "tbody", "tr", "th[scope=\"row\"]", "td", "i"] {
        assert!(selector(pattern).is_ok(), "{pattern}");
    }
    assert_eq!(selector("[[").err(), Some(ParseError::InvalidSelector));
}

#[test]
fn rows_by_their_cells() {
    let cells = |n: usize| -> Vec<Vec<&'static str>> { (0..n).map(|_| vec![]).collect() };
    assert_eq!(class_from_row(None, None, &cells(5)).err(), Some(ParseError::ClassHasNoTimeCell));
    assert_eq!(class_from_row(Some("1"), None, &cells(0)).err(), Some(ParseError::ClassHasNoWeekTypeCell));
    assert_eq!(class_from_row(Some("1"), None, &cells(2)).err(), Some(ParseError::ClassHasNoGroupCell));
    assert_eq!(class_from_row(Some("1"), None, &cells(5)).err(), Some(ParseError::ClassHasNoWeekTypeTitle));
    let full = vec![
        vec![],
        vec!["Лоцманская ", "301"],
        vec!["\n21", "51\n"],
        vec![" Физика ", "  ", "Лекция", "Очно"],
        vec!["Иванов ", "И. И."],
    ];
    let c = class_from_row(Some("09:00 - 10:30"), Some("Верхняя неделя"), &full).unwrap();
    assert_eq!(c.time.time_from, "09:00");
    assert_eq!(c.time.time_to, "10:30");
    assert_eq!(c.week_type, WeekType::Top);
    assert_eq!((c.location.as_str(), c.room.as_str()), ("Лоцманская", "301"));
    assert_eq!(c.group_number, 2151);
    assert_eq!((c.subject.as_str(), c.class_type.as_str(), c.note.as_str()), ("Физика", "Лекция", "Очно"));
    assert_eq!(c.teacher, "Иванов И. И.");
}

#[test]
fn group_entries_in_order() {
    let entry = |hrefs: Vec<Option<&'static str>>, text: Vec<&'static str>| GroupEntry { hrefs, text };
    assert_eq!(process_group(&entry(vec![], vec!["1"])).err(), Some(ParseError::GroupHasNoLink));
    assert_eq!(process_group(&entry(vec![None, Some("/a/5/")], vec!["1"])).err(), Some(ParseError::GroupHasNoHref));
    let g = process_group(&entry(vec![Some("/a/5/"), None], vec![" 21", "20 "])).unwrap();
    assert_eq!((g.number, g.id), (2120, 5));
    let entries = vec![
        entry(vec![Some("/a/5/")], vec!["2120"]),
        entry(vec![Some("/a/x/")], vec!["2121"]),
        entry(vec![], vec!["2122"]),
    ];
    assert_eq!(groups_from_entries(&entries).err(), Some(ParseError::IdNotANumber));
    let ok = groups_from_entries(&vec![entry(vec![Some("/a/5/")], vec!["2120"]), entry(vec![Some("/b/6/")], vec!["2121"])]).unwrap();
    assert_eq!((ok.len(), ok[1].number, ok[1].id), (2, 2121, 6));
    assert!(groups_from_entries(&vec![]).unwrap().is_empty());
}

#[test]
fn teacher_links_in_order() {
    let link = |href: Option<&'static str>, text: Vec<&'static str>| TeacherLink { href, text };
    let t = process_teacher(&link(Some("/p/3/"), vec!["Сидоров ", "С. С. (", "профессор)"])).unwrap();
    assert_eq!((t.name.as_str(), t.position.as_str(), t.isu_id), ("Сидоров С. С.", "профессор", 3));
    assert_eq!(process_teacher(&link(None, vec!["X"])).err(), Some(ParseError::TeacherHasNoHref));
    assert_eq!(teachers_from_links(&vec![]).err(), Some(ParseError::TeachersListEmpty));
    assert_eq!(
        teachers_from_links(&vec![link(Some("/p/1/"), vec!["A"]), link(Some("bad"), vec!["B"]), link(None, vec![])]).err(),
        Some(ParseError::InvalidHrefFormat)
    );
    let ts = teachers_from_links(&vec![link(Some("/p/1/"), vec!["A"]), link(Some("/p/2/"), vec!["B (b)"])]).unwrap();
    assert_eq!((ts[0].isu_id, ts[1].isu_id, ts[1].position.as_str()), (1, 2, "b"));
}

fn full_row(subject: &'static str) -> Row<'static> {
    Row {
        times: vec![vec!["09:00-", "10:30"], vec!["ignored"]],
        cells: vec![vec![], vec!["Лоцманская 3"], vec!["2120"], vec![subject], vec!["Иванов"]],
        titles: vec![Some("Обе недели"), Some("Нижняя неделя")],
    }
}

#[test]
fn rows_cards_and_weeks() {
    let c = process_class(&full_row("Физика")).unwrap();
    assert_eq!((c.time.time_from.as_str(), c.time.time_to.as_str()), ("09:00", "10:30"));
    assert_eq!(c.week_type, WeekType::All);
    assert_eq!((c.location.as_str(), c.room.as_str(), c.subject.as_str()), ("Лоцманская", "3", "Физика"));
    let mut no_title = full_row("x");
    no_title.titles = vec![None, Some("Обе недели")];
    assert_eq!(process_class(&no_title).err(), Some(ParseError::ClassHasNoWeekTypeTitle));
    let mut no_time = full_row("x");
    no_time.times = vec![];
    assert_eq!(process_class(&no_time).err(), Some(ParseError::ClassHasNoTimeCell));

    assert_eq!(classes_from_rows(&vec![full_row("a"), no_time, no_title]).err(), Some(ParseError::ClassHasNoTimeCell));

    let card = |day: &'static str, subjects: Vec<&'static str>| Card {
        headers: vec![vec!["\n ", day, " \n"]],
        bodies: vec![subjects.into_iter().map(full_row).collect(), vec![full_row("второе тело")]],
    };
    assert_eq!(process_day(&Card { headers: vec![], bodies: vec![] }).err(), Some(ParseError::DayHasNoTableBody));
    assert_eq!(process_day(&card("Среда", vec!["a", "b"])).unwrap().len(), 2);
    assert_eq!(day_of_card(&card("Среда", vec![])), Ok(2));
    assert_eq!(day_of_card(&Card { headers: vec![], bodies: vec![] }), Err(ParseError::DayHasNoHeader));
    assert_eq!(day_of_card(&card("Среда!", vec![])), Err(ParseError::UnknownDayName));

    let variant = || ScheduleVariant::Group(Group { number: 1, id: 1 });
    let s = week_from_cards(
        &vec![card("Среда", vec!["a", "b"]), card("Пятница", vec!["c"]), card("Среда", vec!["d"])],
        variant(),
    )
    .unwrap();
    assert_eq!(s.week[2].len(), 1);
    assert_eq!(s.week[2][0].subject, "d");
    assert_eq!(s.week[4][0].subject, "c");
    assert!(s.week[0].is_empty() && s.week[6].is_empty());
    assert_eq!(
        week_from_cards(&vec![card("Среда", vec![]), card("Нет", vec![]), Card { headers: vec![], bodies: vec![] }], variant()).err(),
        Some(ParseError::UnknownDayName)
    );
}
