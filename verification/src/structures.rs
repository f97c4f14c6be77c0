//! The schedule's data: groups, teachers, classes and week parity.
use vstd::prelude::*;

use crate::calendar::{iso_week_of, Date};

verus! {

#[derive(Debug, Clone)]
pub struct Teacher {
    pub name: String,
    pub position: String,
    pub isu_id: i32,
}

#[derive(Debug, Clone)]
pub struct Group {
    pub number: i32,
    pub id: i32,
}

/// The weeks of the term alternate between "top" and "bottom"; a class may be
/// held on either or on both.
#[derive(Debug, Clone, Copy, PartialEq, Eq, Structural)]
pub enum WeekType {
    Top,
    Bottom,
    All,
}

/// The week type of the ISO week `week`: odd weeks are top weeks.
pub open spec fn week_type_for_week(week: int) -> WeekType {
    if week % 2 == 1 {
        WeekType::Top
    } else {
        WeekType::Bottom
    }
}

pub open spec fn week_type_ru(w: WeekType) -> Seq<char> {
    match w {
        WeekType::Top => "верхняя"@,
        WeekType::Bottom => "нижняя"@,
        WeekType::All => "обе"@,
    }
}

impl WeekType {
    /// The Russian name of the week type.
    pub fn to_ru_string(&self) -> (r: &str)
        ensures
            r@ == week_type_ru(*self),
    {
        match self {
            WeekType::Top => "верхняя",
            WeekType::Bottom => "нижняя",
            WeekType::All => "обе",
        }
    }

    /// The week type of a date, by the parity of its ISO week number.
    pub fn for_date(now: Date) -> (r: WeekType)
        requires
            now.valid(),
        ensures
            r == week_type_for_week(iso_week_of(now.year as int, now.month as int, now.day as int)),
            r != WeekType::All,
    {
        let week = now.iso_week();
        if week % 2 == 1 {
            WeekType::Top
        } else {
            WeekType::Bottom
        }
    }
}

#[derive(Debug, Clone)]
pub struct ClassTime {
    pub time_from: String,
    pub time_to: String,
}

#[derive(Debug, Clone)]
pub struct Class {
    pub location: String,
    pub room: String,
    pub teacher: String,
    pub group_number: i32,
    pub time: ClassTime,
    pub week_type: WeekType,
    pub subject: String,
    pub class_type: String,
    pub note: String,
}

/// Whose schedule it is: a student group's or a teacher's.
#[derive(Debug, Clone)]
pub enum ScheduleVariant {
    Group(Group),
    Teacher(Teacher),
}

/// A week of classes, Monday first.
#[derive(Debug, Clone)]
pub struct Schedule {
    pub schedule_type: ScheduleVariant,
    pub week: [Vec<Class>; 7],
}

} // verus!
