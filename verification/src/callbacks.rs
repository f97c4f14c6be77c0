//! The data behind the inline buttons under a schedule message, and what a
//! press on one of them is answered with.
use vstd::prelude::*;

use crate::calendar::{
    date_display, date_from_str, has_neighbours, iso_week_of, lemma_date_display_chars, next_day,
    prev_day, Date,
};
use crate::formatting::{day_text, ScheduleFormatting};
use crate::schedule_repo::{last_group_index, last_teacher_index, ScheduleRepo};
use crate::structures::{week_type_for_week, Schedule, ScheduleVariant, WeekType};
use crate::text::{
    append_int, int_str, lemma_int_str_no_char, lemma_parse_int_str, lemma_split_concat,
    lemma_split_no_sep, parse_i32, split, split_str, str_equals, str_parse_i32,
};

verus! {

/// Whose schedule a button opens.
#[derive(Clone, Copy, Debug, PartialEq, Eq, Structural)]
pub enum ScheduleTarget {
    Group(i32),
    Teacher(i32),
}

/// What a button asks for: a schedule, a day and the weeks to show.
#[derive(Clone, Copy, Debug, PartialEq, Eq, Structural)]
pub struct CallbackQueryData {
    pub target: ScheduleTarget,
    pub date: Date,
    pub week_type: WeekType,
}

/// Why callback data could not be read.
#[derive(Clone, Copy, Debug, PartialEq, Eq, Structural)]
pub enum DecodeError {
    InvalidFormat,
    UnsupportedVersion,
    InvalidGroupId,
    InvalidTeacherId,
    InvalidTargetKind,
    InvalidDate,
    InvalidWeekType,
}

pub open spec fn target_kind(t: ScheduleTarget) -> Seq<char> {
    match t {
        ScheduleTarget::Group(_) => "g"@,
        ScheduleTarget::Teacher(_) => "t"@,
    }
}

pub open spec fn target_id(t: ScheduleTarget) -> i32 {
    match t {
        ScheduleTarget::Group(id) => id,
        ScheduleTarget::Teacher(id) => id,
    }
}

pub open spec fn week_code(w: WeekType) -> Seq<char> {
    match w {
        WeekType::All => "a"@,
        WeekType::Top => "t"@,
        WeekType::Bottom => "b"@,
    }
}

/// `v1|<g or t>|<id>|<date>|<a, t or b>`.
pub open spec fn encoded(q: CallbackQueryData) -> Seq<char> {
    "v1"@ + "|"@ + target_kind(q.target) + "|"@ + int_str(target_id(q.target) as int) + "|"@
        + date_display(q.date.year as int, q.date.month as int, q.date.day as int) + "|"@
        + week_code(q.week_type)
}

/// What callback data decodes to, or the first thing wrong with it.
pub open spec fn decoded(s: Seq<char>) -> Result<CallbackQueryData, DecodeError> {
    let parts = split(s, '|');
    if parts.len() != 5 {
        Err(DecodeError::InvalidFormat)
    } else if parts[0] != "v1"@ {
        Err(DecodeError::UnsupportedVersion)
    } else if parts[1] == "g"@ && parse_i32(parts[2]) is None {
        Err(DecodeError::InvalidGroupId)
    } else if parts[1] == "t"@ && parse_i32(parts[2]) is None {
        Err(DecodeError::InvalidTeacherId)
    } else if parts[1] != "g"@ && parts[1] != "t"@ {
        Err(DecodeError::InvalidTargetKind)
    } else if date_from_str(parts[3]) is None {
        Err(DecodeError::InvalidDate)
    } else if parts[4] != "a"@ && parts[4] != "t"@ && parts[4] != "b"@ {
        Err(DecodeError::InvalidWeekType)
    } else {
        let id = parse_i32(parts[2])->0;
        let (y, m, d) = date_from_str(parts[3])->0;
        Ok(
            CallbackQueryData {
                target: if parts[1] == "g"@ {
                    ScheduleTarget::Group(id)
                } else {
                    ScheduleTarget::Teacher(id)
                },
                date: Date { year: y, month: m, day: d },
                week_type: if parts[4] == "a"@ {
                    WeekType::All
                } else if parts[4] == "t"@ {
                    WeekType::Top
                } else {
                    WeekType::Bottom
                },
            },
        )
    }
}

proof fn lemma_literals()
    ensures
        "v1"@ == seq!['v', '1'],
        "|"@ == seq!['|'],
        "g"@ == seq!['g'],
        "t"@ == seq!['t'],
        "a"@ == seq!['a'],
        "b"@ == seq!['b'],
{
    reveal_strlit("v1");
    reveal_strlit("|");
    reveal_strlit("g");
    reveal_strlit("t");
    reveal_strlit("a");
    reveal_strlit("b");
}

proof fn lemma_no_pipe(s: Seq<char>)
    requires
        s.len() <= 2,
        forall|i: int| 0 <= i < s.len() ==> #[trigger] s[i] != '|',
    ensures
        !s.contains('|'),
{
}

/// Decoding the encoded data gives the data back.
proof fn lemma_decode_encoded(q: CallbackQueryData)
    requires
        1 <= q.date.month <= 12,
        1 <= q.date.day <= 31,
        date_from_str(date_display(q.date.year as int, q.date.month as int, q.date.day as int))
            == Some((q.date.year, q.date.month, q.date.day)),
    ensures
        decoded(encoded(q)) == Ok::<CallbackQueryData, DecodeError>(q),
{
    lemma_literals();
    let p0 = "v1"@;
    let p1 = target_kind(q.target);
    let p2 = int_str(target_id(q.target) as int);
    let p3 = date_display(q.date.year as int, q.date.month as int, q.date.day as int);
    let p4 = week_code(q.week_type);
    lemma_int_str_no_char(target_id(q.target) as int, '|');
    lemma_date_display_chars(q.date.year as int, q.date.month as int, q.date.day as int);
    assert(!p3.contains('|')) by {
        if p3.contains('|') {
            let k = choose|k: int| 0 <= k < p3.len() && p3[k] == '|';
            assert(p3[k] == '|');
        }
    }
    lemma_no_pipe(p0);
    lemma_no_pipe(p1);
    lemma_no_pipe(p4);
    lemma_split_no_sep(p0, '|');
    lemma_split_no_sep(p1, '|');
    lemma_split_no_sep(p2, '|');
    lemma_split_no_sep(p3, '|');
    lemma_split_no_sep(p4, '|');
    let a1 = p0 + seq!['|'] + p1;
    let a2 = a1 + seq!['|'] + p2;
    let a3 = a2 + seq!['|'] + p3;
    let a4 = a3 + seq!['|'] + p4;
    assert(encoded(q) =~= a4);
    lemma_split_concat(p0, p1, '|');
    lemma_split_concat(a1, p2, '|');
    lemma_split_concat(a2, p3, '|');
    lemma_split_concat(a3, p4, '|');
    let parts = split(encoded(q), '|');
    assert(parts =~= seq![p0, p1, p2, p3, p4]);
    lemma_parse_int_str(target_id(q.target) as int, true);
    assert(parse_i32(p2) == Some(target_id(q.target)));
}

pub open spec fn button_date(t: (int, int, int)) -> Date {
    Date { year: t.0 as i32, month: t.1 as u32, day: t.2 as u32 }
}

/// The target that a schedule's buttons point back to.
pub open spec fn target_of(v: ScheduleVariant) -> ScheduleTarget {
    match v {
        ScheduleVariant::Group(g) => ScheduleTarget::Group(g.number),
        ScheduleVariant::Teacher(t) => ScheduleTarget::Teacher(t.isu_id),
    }
}

/// The query of a day button: that day with its own week type.
pub open spec fn day_query(v: ScheduleVariant, d: Date) -> CallbackQueryData {
    CallbackQueryData {
        target: target_of(v),
        date: d,
        week_type: week_type_for_week(iso_week_of(d.year as int, d.month as int, d.day as int)),
    }
}

/// The query of a week button: the same day with the given weeks.
pub open spec fn week_query(v: ScheduleVariant, d: Date, w: WeekType) -> CallbackQueryData {
    CallbackQueryData { target: target_of(v), date: d, week_type: w }
}

/// An inline button: its label and the callback data it sends.
pub struct Button {
    pub text: String,
    pub data: String,
}

impl Button {
    /// The button reads `text` and sends the encoding of `query`, which
    /// decodes back to `query`.
    pub open spec fn shows(self, text: Seq<char>, query: CallbackQueryData) -> bool {
        &&& self.text@ == text
        &&& self.data@ == encoded(query)
        &&& decoded(self.data@) == Ok::<CallbackQueryData, DecodeError>(query)
    }
}

/// The keyboard under a schedule for `day`: the day before, today and the day
/// after, then all weeks, the bottom week and the top week of `day`.
pub open spec fn keyboard_ok(k: Seq<Vec<Button>>, v: ScheduleVariant, day: Date, today: Date) -> bool {
    let before = button_date(prev_day(day.year as int, day.month as int, day.day as int));
    let after = button_date(next_day(day.year as int, day.month as int, day.day as int));
    &&& k.len() == 2
    &&& k[0]@.len() == 3
    &&& k[1]@.len() == 3
    &&& k[0]@[0].shows(
        date_display(before.year as int, before.month as int, before.day as int),
        day_query(v, before),
    )
    &&& k[0]@[1].shows("сегодня"@, day_query(v, today))
    &&& k[0]@[2].shows(
        date_display(after.year as int, after.month as int, after.day as int),
        day_query(v, after),
    )
    &&& k[1]@[0].shows("обе"@, week_query(v, day, WeekType::All))
    &&& k[1]@[1].shows("нижняя"@, week_query(v, day, WeekType::Bottom))
    &&& k[1]@[2].shows("верхняя"@, week_query(v, day, WeekType::Top))
}

/// The buttons of a schedule keyboard send what they read: each day button
/// its own date with the week type of that date's own ISO week, for the
/// schedule the keyboard is under: the first the day before `day`, the second
/// today, the third the day after `day`. The week buttons keep `day` and send
/// all, the bottom and the top weeks. The buttons of the neighbouring days do
/// not depend on today.
pub proof fn lemma_keyboard_buttons(
    k: Seq<Vec<Button>>,
    other: Seq<Vec<Button>>,
    v: ScheduleVariant,
    day: Date,
    today: Date,
    other_today: Date,
)
    requires
        day.valid(),
        has_neighbours(day),
        keyboard_ok(k, v, day, today),
        keyboard_ok(other, v, day, other_today),
    ensures
        forall|j: int|
            0 <= j < 3 ==> (decoded(#[trigger] k[0]@[j].data@) matches Ok(q) && q.target == target_of(v)
                && q.week_type == week_type_for_week(
                iso_week_of(q.date.year as int, q.date.month as int, q.date.day as int),
            )),
        decoded(k[0]@[0].data@) matches Ok(q) && next_day(
            q.date.year as int,
            q.date.month as int,
            q.date.day as int,
        ) == day.ymd(),
        decoded(k[0]@[1].data@) matches Ok(q) && q.date == today,
        decoded(k[0]@[2].data@) matches Ok(q) && prev_day(
            q.date.year as int,
            q.date.month as int,
            q.date.day as int,
        ) == day.ymd(),
        decoded(k[1]@[0].data@) == Ok::<CallbackQueryData, DecodeError>(
            CallbackQueryData { target: target_of(v), date: day, week_type: WeekType::All },
        ),
        decoded(k[1]@[1].data@) == Ok::<CallbackQueryData, DecodeError>(
            CallbackQueryData { target: target_of(v), date: day, week_type: WeekType::Bottom },
        ),
        decoded(k[1]@[2].data@) == Ok::<CallbackQueryData, DecodeError>(
            CallbackQueryData { target: target_of(v), date: day, week_type: WeekType::Top },
        ),
        forall|j: int|
            0 <= j < 3 && j != 1 ==> (decoded(#[trigger] k[0]@[j].data@) matches Ok(q)
                && k[0]@[j].text@ == date_display(
                q.date.year as int,
                q.date.month as int,
                q.date.day as int,
            )),
        k[0]@[1].text@ == "сегодня"@,
        k[1]@[0].text@ == "обе"@,
        k[1]@[1].text@ == "нижняя"@,
        k[1]@[2].text@ == "верхняя"@,
        k[0]@[0].data@ == other[0]@[0].data@,
        k[0]@[2].data@ == other[0]@[2].data@,
{
    let (y, m, d) = (day.year as int, day.month as int, day.day as int);
    crate::calendar::lemma_prev_next_day(y, m, d);
    crate::calendar::lemma_neighbours_valid(y, m, d);
    let before = button_date(prev_day(y, m, d));
    let after = button_date(next_day(y, m, d));
    assert(before.ymd() == prev_day(y, m, d));
    assert(after.ymd() == next_day(y, m, d));
    assert(decoded(k[0]@[0].data@) == Ok::<CallbackQueryData, DecodeError>(day_query(v, before)));
    assert(decoded(k[0]@[1].data@) == Ok::<CallbackQueryData, DecodeError>(day_query(v, today)));
    assert(decoded(k[0]@[2].data@) == Ok::<CallbackQueryData, DecodeError>(day_query(v, after)));
}

impl CallbackQueryData {
    /// The callback data string. Decoding it gives this data back.
    pub fn encode(&self) -> (r: String)
        requires
            self.date.valid(),
        ensures
            r@ == encoded(*self),
            decoded(r@) == Ok::<CallbackQueryData, DecodeError>(*self),
    {
        let (kind, id) = match self.target {
            ScheduleTarget::Group(id) => ("g", id),
            ScheduleTarget::Teacher(id) => ("t", id),
        };
        let week = match self.week_type {
            WeekType::All => "a",
            WeekType::Top => "t",
            WeekType::Bottom => "b",
        };
        let date = self.date.to_date_string();
        let mut r = String::from_str("v1");
        r.append("|");
        r.append(kind);
        r.append("|");
        append_int(&mut r, id as i64);
        r.append("|");
        r.append(date.as_str());
        r.append("|");
        r.append(week);
        proof {
            assert(r@ =~= encoded(*self));
            lemma_decode_encoded(*self);
        }
        r
    }

    /// Reads callback data written by `encode`.
    pub fn decode(string: &str) -> (r: Result<CallbackQueryData, DecodeError>)
        ensures
            r == decoded(string@),
            r matches Ok(q) ==> q.date.valid(),
    {
        let parts = split_str(string, '|');
        if parts.len() != 5 {
            return Err(DecodeError::InvalidFormat);
        }
        proof {
            reveal_strlit("v1");
            reveal_strlit("g");
            reveal_strlit("t");
            reveal_strlit("a");
            reveal_strlit("b");
        }
        if !str_equals(parts[0], "v1") {
            return Err(DecodeError::UnsupportedVersion);
        }
        let target = if str_equals(parts[1], "g") {
            match str_parse_i32(parts[2]) {
                Some(id) => ScheduleTarget::Group(id),
                None => return Err(DecodeError::InvalidGroupId),
            }
        } else if str_equals(parts[1], "t") {
            match str_parse_i32(parts[2]) {
                Some(id) => ScheduleTarget::Teacher(id),
                None => return Err(DecodeError::InvalidTeacherId),
            }
        } else {
            return Err(DecodeError::InvalidTargetKind);
        };
        let date = match Date::parse(parts[3]) {
            Some(date) => date,
            None => return Err(DecodeError::InvalidDate),
        };
        let week_type = if str_equals(parts[4], "a") {
            WeekType::All
        } else if str_equals(parts[4], "t") {
            WeekType::Top
        } else if str_equals(parts[4], "b") {
            WeekType::Bottom
        } else {
            return Err(DecodeError::InvalidWeekType);
        };
        Ok(CallbackQueryData { target, date, week_type })
    }
}

/// The target that a schedule's buttons point back to.
pub fn target_from_variant(schedule_variant: &ScheduleVariant) -> (r: ScheduleTarget)
    ensures
        r == target_of(*schedule_variant),
{
    match schedule_variant {
        ScheduleVariant::Group(group) => ScheduleTarget::Group(group.number),
        ScheduleVariant::Teacher(teacher) => ScheduleTarget::Teacher(teacher.isu_id),
    }
}

fn day_button(schedule_variant: &ScheduleVariant, day: Date, text: String) -> (r: Button)
    requires
        day.valid(),
    ensures
        r.text == text,
        r.data@ == encoded(day_query(*schedule_variant, day)),
        decoded(r.data@) == Ok::<CallbackQueryData, DecodeError>(day_query(*schedule_variant, day)),
{
    let query = CallbackQueryData {
        target: target_from_variant(schedule_variant),
        date: day,
        week_type: WeekType::for_date(day),
    };
    Button { text, data: query.encode() }
}

fn week_button(schedule_variant: &ScheduleVariant, day: Date, week_type: WeekType, text: &str) -> (r:
    Button)
    requires
        day.valid(),
    ensures
        r.text@ == text@,
        r.data@ == encoded(week_query(*schedule_variant, day, week_type)),
        decoded(r.data@) == Ok::<CallbackQueryData, DecodeError>(
            week_query(*schedule_variant, day, week_type),
        ),
{
    let query = CallbackQueryData {
        target: target_from_variant(schedule_variant),
        date: day,
        week_type,
    };
    Button { text: String::from_str(text), data: query.encode() }
}

/// The keyboard under a schedule message for `day`; `today` is the current date.
pub fn inline_buttons(schedule_variant: &ScheduleVariant, day: Date, today: Date) -> (r: Vec<
    Vec<Button>,
>)
    requires
        day.valid(),
        today.valid(),
        has_neighbours(day),
    ensures
        keyboard_ok(r@, *schedule_variant, day, today),
{
    let before = day.pred();
    let after = day.succ();
    let mut days_buttons: Vec<Button> = Vec::new();
    days_buttons.push(day_button(schedule_variant, before, before.to_date_string()));
    days_buttons.push(day_button(schedule_variant, today, String::from_str("сегодня")));
    days_buttons.push(day_button(schedule_variant, after, after.to_date_string()));

    let mut week_types_buttons: Vec<Button> = Vec::new();
    week_types_buttons.push(week_button(schedule_variant, day, WeekType::All, "обе"));
    week_types_buttons.push(week_button(schedule_variant, day, WeekType::Bottom, "нижняя"));
    week_types_buttons.push(week_button(schedule_variant, day, WeekType::Top, "верхняя"));

    let mut rows: Vec<Vec<Button>> = Vec::new();
    rows.push(days_buttons);
    rows.push(week_types_buttons);
    proof {
        assert(before == button_date(prev_day(day.year as int, day.month as int, day.day as int)));
        assert(after == button_date(next_day(day.year as int, day.month as int, day.day as int)));
    }
    rows
}

/// The schedule a target names in the store, as a lookup finds it.
pub open spec fn target_schedule(repo: ScheduleRepo, t: ScheduleTarget) -> Option<Schedule> {
    let s = repo.schedules();
    match t {
        ScheduleTarget::Group(n) => match last_group_index(s, n) {
            Some(i) => Some(s[i]),
            None => None,
        },
        ScheduleTarget::Teacher(id) => match last_teacher_index(s, id) {
            Some(i) => Some(s[i]),
            None => None,
        },
    }
}

/// Why a button press is left unanswered.
#[derive(Clone, Copy, Debug, PartialEq, Eq, Structural)]
pub enum CallbackSkip {
    InvalidData(DecodeError),
    NotFound(ScheduleTarget),
}

/// The new text and keyboard of the message whose button was pressed.
pub struct CallbackReply {
    pub text: String,
    pub keyboard: Vec<Vec<Button>>,
}

/// What a button press with `callback_data` is answered with: the schedule it
/// names, for its day and weeks, with a fresh keyboard for that day.
pub fn callback_reply(repo: &ScheduleRepo, callback_data: &str, today: Date) -> (r: Result<
    CallbackReply,
    CallbackSkip,
>)
    requires
        today.valid(),
        decoded(callback_data@) matches Ok(q) ==> (target_schedule(*repo, q.target) is Some
            ==> has_neighbours(q.date)),
    ensures
        match decoded(callback_data@) {
            Err(e) => r == Err::<CallbackReply, CallbackSkip>(CallbackSkip::InvalidData(e)),
            Ok(q) => match target_schedule(*repo, q.target) {
                None => r == Err::<CallbackReply, CallbackSkip>(CallbackSkip::NotFound(q.target)),
                Some(s) => r matches Ok(reply) && reply.text@ == day_text(s, q.date, q.week_type)
                    && keyboard_ok(reply.keyboard@, s.schedule_type, q.date, today),
            },
        },
{
    let query = match CallbackQueryData::decode(callback_data) {
        Ok(query) => query,
        Err(err) => return Err(CallbackSkip::InvalidData(err)),
    };
    let schedule = match query.target {
        ScheduleTarget::Group(group_number) => repo.get_by_group_number(group_number),
        ScheduleTarget::Teacher(isu_id) => repo.get_by_isu_id(isu_id),
    };
    let schedule = match schedule {
        Some(schedule) => schedule,
        None => return Err(CallbackSkip::NotFound(query.target)),
    };
    let text = schedule.format_for_day(query.date, query.week_type);
    let keyboard = inline_buttons(&schedule.schedule_type, query.date, today);
    Ok(CallbackReply { text, keyboard })
}

} // verus!

verus! {

/// `callback_reply` where it can answer, `None` where the data names a
/// schedule in the store for the first or the last representable day, whose
/// neighbour buttons cannot be made.
pub fn try_callback_reply(repo: &ScheduleRepo, callback_data: &str, today: Date) -> (r: Option<
    Result<CallbackReply, CallbackSkip>,
>)
    requires
        today.valid(),
    ensures
        (decoded(callback_data@) matches Ok(q) && target_schedule(*repo, q.target) is Some
            && !has_neighbours(q.date)) <==> r is None,
        r matches Some(reply) ==> match decoded(callback_data@) {
            Err(e) => reply == Err::<CallbackReply, CallbackSkip>(CallbackSkip::InvalidData(e)),
            Ok(q) => match target_schedule(*repo, q.target) {
                None => reply == Err::<CallbackReply, CallbackSkip>(
                    CallbackSkip::NotFound(q.target),
                ),
                Some(s) => reply matches Ok(m) && m.text@ == day_text(s, q.date, q.week_type)
                    && keyboard_ok(m.keyboard@, s.schedule_type, q.date, today),
            },
        },
{
    match CallbackQueryData::decode(callback_data) {
        Ok(query) => {
            let found = match query.target {
                ScheduleTarget::Group(group_number) => repo.get_by_group_number(group_number).is_some(),
                ScheduleTarget::Teacher(isu_id) => repo.get_by_isu_id(isu_id).is_some(),
            };
            if found && !query.date.has_neighbours() {
                return None;
            }
        },
        Err(_) => {},
    }
    Some(callback_reply(repo, callback_data, today))
}

} // verus!
