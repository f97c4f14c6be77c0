use smtu_reminder::calendar::Date;
use smtu_reminder::callbacks::{
    callback_reply, inline_buttons, target_from_variant, try_callback_reply, CallbackQueryData, CallbackSkip,
    DecodeError, ScheduleTarget,
};
use smtu_reminder::schedule_repo::ScheduleRepo;
use smtu_reminder::structures::{Group, Schedule, ScheduleVariant, Teacher, WeekType};

fn date(year: i32, month: u32, day: u32) -> Date {
    Date::from_ymd_opt(year, month, day).unwrap()
}

fn empty_week() -> [Vec<smtu_reminder::structures::Class>; 7] {
    [vec![], vec![], vec![], vec![], vec![], vec![], vec![]]
}

#[test]
fn callback_data_roundtrip_group() {
    let data = CallbackQueryData {
        target: ScheduleTarget::Group(42),
        date: date(2026, 2, 2),
        week_type: WeekType::Bottom,
    };

    let encoded = data.encode();
    let decoded = CallbackQueryData::decode(&encoded).unwrap();

    assert!(matches!(decoded.target, ScheduleTarget::Group(42)));
    assert_eq!(decoded.date, data.date);
    assert_eq!(decoded.week_type, data.week_type);
}

#[test]
fn callback_data_roundtrip_teacher() {
    let data = CallbackQueryData {
        target: ScheduleTarget::Teacher(314),
        date: date(2026, 2, 3),
        week_type: WeekType::Top,
    };

    let encoded = data.encode();
    let decoded = CallbackQueryData::decode(&encoded).unwrap();

    assert!(matches!(decoded.target, ScheduleTarget::Teacher(314)));
    assert_eq!(decoded.date, data.date);
    assert_eq!(decoded.week_type, data.week_type);
}

#[test]
fn callback_data_encoding_text() {
    let data = CallbackQueryData {
        target: ScheduleTarget::Group(-7),
        date: date(987, 12, 1),
        week_type: WeekType::All,
    };
    assert_eq!(data.encode(), "v1|g|-7|0987-12-01|a");
}

#[test]
fn callback_data_roundtrip_far_year() {
    let data = CallbackQueryData {
        target: ScheduleTarget::Teacher(1),
        date: date(12345, 6, 7),
        week_type: WeekType::Top,
    };
    let encoded = data.encode();
    assert_eq!(encoded, "v1|t|1|+12345-06-07|t");
    assert_eq!(CallbackQueryData::decode(&encoded), Ok(data));
}

#[test]
fn callback_decode_errors() {
    assert_eq!(CallbackQueryData::decode("v1|g|1|2026-01-01"), Err(DecodeError::InvalidFormat));
    assert_eq!(CallbackQueryData::decode("v2|g|1|2026-01-01|a"), Err(DecodeError::UnsupportedVersion));
    assert_eq!(CallbackQueryData::decode("v1|g|x|2026-01-01|a"), Err(DecodeError::InvalidGroupId));
    assert_eq!(CallbackQueryData::decode("v1|t|9999999999|2026-01-01|a"), Err(DecodeError::InvalidTeacherId));
    assert_eq!(CallbackQueryData::decode("v1|q|1|2026-01-01|a"), Err(DecodeError::InvalidTargetKind));
    assert_eq!(CallbackQueryData::decode("v1|g|1|2026-02-30|a"), Err(DecodeError::InvalidDate));
    assert_eq!(CallbackQueryData::decode("v1|g|1|2026-02-03|z"), Err(DecodeError::InvalidWeekType));
    assert_eq!(
        CallbackQueryData::decode("v1|g|+5|2026-02-03|b"),
        Ok(CallbackQueryData { target: ScheduleTarget::Group(5), date: date(2026, 2, 3), week_type: WeekType::Bottom })
    );
}

#[test]
fn target_from_variant_uses_number_and_isu_id() {
    let g = ScheduleVariant::Group(Group { number: 2120, id: 77 });
    let t = ScheduleVariant::Teacher(Teacher { name: "Иванов И. И.".to_string(), position: "доцент".to_string(), isu_id: 5 });
    assert_eq!(target_from_variant(&g), ScheduleTarget::Group(2120));
    assert_eq!(target_from_variant(&t), ScheduleTarget::Teacher(5));
}

#[test]
fn inline_buttons_layout() {
    let variant = ScheduleVariant::Group(Group { number: 2120, id: 77 });
    let rows = inline_buttons(&variant, date(2026, 3, 1), date(2026, 2, 10));
    assert_eq!(rows.len(), 2);
    let texts: Vec<&str> = rows[0].iter().map(|b| b.text.as_str()).collect();
    assert_eq!(texts, vec!["2026-02-28", "сегодня", "2026-03-02"]);
    let data: Vec<&str> = rows[0].iter().map(|b| b.data.as_str()).collect();
    assert_eq!(
        data,
        vec!["v1|g|2120|2026-02-28|t", "v1|g|2120|2026-02-10|t", "v1|g|2120|2026-03-02|b"]
    );
    let texts: Vec<&str> = rows[1].iter().map(|b| b.text.as_str()).collect();
    assert_eq!(texts, vec!["обе", "нижняя", "верхняя"]);
    let data: Vec<&str> = rows[1].iter().map(|b| b.data.as_str()).collect();
    assert_eq!(
        data,
        vec!["v1|g|2120|2026-03-01|a", "v1|g|2120|2026-03-01|b", "v1|g|2120|2026-03-01|t"]
    );
    for row in &rows {
        for button in row {
            assert!(CallbackQueryData::decode(&button.data).is_ok());
        }
    }
}

#[test]
fn callback_reply_outcomes() {
    let mut repo = ScheduleRepo::new();
    let schedule = Schedule {
        schedule_type: ScheduleVariant::Teacher(Teacher { name: "Петров".to_string(), position: "профессор".to_string(), isu_id: 314 }),
        week: empty_week(),
    };
    repo.update(vec![schedule], 100);
    let today = date(2026, 2, 10);

    assert_eq!(
        callback_reply(&repo, "garbage", today).err(),
        Some(CallbackSkip::InvalidData(DecodeError::InvalidFormat))
    );
    assert_eq!(
        callback_reply(&repo, "v1|g|42|2026-02-02|b", today).err(),
        Some(CallbackSkip::NotFound(ScheduleTarget::Group(42)))
    );
    let reply = callback_reply(&repo, "v1|t|314|2026-02-02|b", today).ok().unwrap();
    assert_eq!(
        reply.text,
        "Расписание преподавателя Петров (профессор)\nПонедельник, 02.02.2026 (нижняя неделя)\nЗанятий нет."
    );
    assert_eq!(reply.keyboard[0][1].data, "v1|t|314|2026-02-10|t");
}

#[test]
fn boundary_day_presses() {
    let mut repo = ScheduleRepo::new();
    let schedule = Schedule {
        schedule_type: ScheduleVariant::Group(Group { number: 2120, id: 1 }),
        week: empty_week(),
    };
    repo.update(vec![schedule], 100);
    let today = date(2026, 2, 10);
    for day in [date(-262143, 1, 1), date(262142, 12, 31)] {
        let missing = CallbackQueryData { target: ScheduleTarget::Group(7), date: day, week_type: WeekType::All };
        assert_eq!(
            try_callback_reply(&repo, &missing.encode(), today).map(|r| r.err()),
            Some(Some(CallbackSkip::NotFound(ScheduleTarget::Group(7))))
        );
        let found = CallbackQueryData { target: ScheduleTarget::Group(2120), date: day, week_type: WeekType::All };
        assert!(try_callback_reply(&repo, &found.encode(), today).is_none());
    }
    assert_eq!(
        try_callback_reply(&repo, "garbage", today).map(|r| r.err()),
        Some(Some(CallbackSkip::InvalidData(DecodeError::InvalidFormat)))
    );
    let ordinary = try_callback_reply(&repo, "v1|g|2120|2026-02-02|b", today).unwrap().ok().unwrap();
    assert_eq!(ordinary.keyboard[0][1].data, "v1|g|2120|2026-02-10|t");
}
