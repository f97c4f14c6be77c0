//! The values that the user and schedule-cache tables hold.
use vstd::prelude::*;

use crate::structures::{Schedule, ScheduleVariant};
use crate::text::{append_int, int_str, parse_i64, str_parse_i64};

verus! {

/// A user as the reminder needs them: their Telegram id and chosen group.
#[derive(Debug, Clone, Copy, PartialEq, Eq, Structural)]
pub struct UserRow {
    pub telegram_id: i64,
    pub group_number: Option<i32>,
}

/// The key of a schedule in the cache: `group:<id>` or `teacher:<isu id>`.
pub open spec fn cache_key_text(v: ScheduleVariant) -> Seq<char> {
    match v {
        ScheduleVariant::Group(g) => "group:"@ + int_str(g.id as int),
        ScheduleVariant::Teacher(t) => "teacher:"@ + int_str(t.isu_id as int),
    }
}

/// The key under which a schedule is cached.
pub fn cache_key(schedule: &Schedule) -> (r: String)
    ensures
        r@ == cache_key_text(schedule.schedule_type),
{
    match &schedule.schedule_type {
        ScheduleVariant::Group(group) => {
            let mut r = String::from_str("group:");
            append_int(&mut r, group.id as i64);
            r
        },
        ScheduleVariant::Teacher(teacher) => {
            let mut r = String::from_str("teacher:");
            append_int(&mut r, teacher.isu_id as i64);
            r
        },
    }
}

/// The stored time of the last schedule update, where it is a number.
pub fn parse_last_updated(value: &str) -> (r: Option<i64>)
    ensures
        r == parse_i64(value@),
{
    str_parse_i64(value)
}

} // verus!
