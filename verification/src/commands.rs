//! What the bot answers to each command, decided from the command's argument
//! and the schedule store.
use vstd::prelude::*;

use crate::calendar::{has_neighbours, iso_week_of, Date};
use crate::callbacks::{inline_buttons, keyboard_ok, Button};
use crate::formatting::{append_joined, day_text, info_text, string_views, ScheduleFormatting};
use crate::schedule_repo::{last_group_index, search_result, ScheduleRepo};
use crate::structures::{week_type_for_week, Schedule, WeekType};
use crate::text::{append_decimal, append_int, int_str, join, parse_i32, parse_u32, str_parse_i32, str_parse_u32};

verus! {

/// The hours a reminder may be set for: 16 to 23 and 0 to 8.
pub open spec fn remind_hour_ok(h: u32) -> bool {
    h < 9 || (16 <= h && h < 24)
}

/// The reminder hour in a `/remind` argument, if it is an allowed hour.
pub fn parse_remind_hour(remind_hour: &str) -> (r: Option<u32>)
    ensures
        r == (match parse_u32(remind_hour@) {
            Some(h) => if remind_hour_ok(h) {
                Some(h)
            } else {
                None
            },
            None => None,
        }),
{
    match str_parse_u32(remind_hour) {
        Some(hour) => if hour < 9 || (16 <= hour && hour < 24) {
            Some(hour)
        } else {
            None
        },
        None => None,
    }
}

/// The group a `/setgroup` argument names: a number whose schedule is known.
pub fn resolve_group_number(query: &str, repo: &ScheduleRepo) -> (r: Option<i32>)
    ensures
        r == (match parse_i32(query@) {
            Some(n) => if last_group_index(repo.schedules(), n) is Some {
                Some(n)
            } else {
                None
            },
            None => None,
        }),
{
    let group_number = match str_parse_i32(query) {
        Some(n) => n,
        None => return None,
    };
    match repo.get_by_group_number(group_number) {
        Some(_) => Some(group_number),
        None => None,
    }
}

pub open spec fn quoted(s: Seq<char>) -> Seq<char> {
    "\""@ + s + "\""@
}

/// `Группа "<n>" задана.`
pub fn group_set_message(number: i32) -> (r: String)
    ensures
        r@ == "Группа "@ + quoted(int_str(number as int)) + " задана."@,
{
    let mut r = String::from_str("Группа ");
    r.append("\"");
    append_int(&mut r, number as i64);
    r.append("\"");
    r.append(" задана.");
    assert(r@ =~= "Группа "@ + quoted(int_str(number as int)) + " задана."@);
    r
}

/// `Группа "<query>" не найдена`
pub fn group_unknown_message(query: &str) -> (r: String)
    ensures
        r@ == "Группа "@ + quoted(query@) + " не найдена"@,
{
    let mut r = String::from_str("Группа ");
    r.append("\"");
    r.append(query);
    r.append("\"");
    r.append(" не найдена");
    assert(r@ =~= "Группа "@ + quoted(query@) + " не найдена"@);
    r
}

/// `Расписание для группы "<n>" не найдено`
pub fn schedule_not_found_message(group: i32) -> (r: String)
    ensures
        r@ == "Расписание для группы "@ + quoted(int_str(group as int)) + " не найдено"@,
{
    let mut r = String::from_str("Расписание для группы ");
    r.append("\"");
    append_int(&mut r, group as i64);
    r.append("\"");
    r.append(" не найдено");
    assert(r@ =~= "Расписание для группы "@ + quoted(int_str(group as int)) + " не найдено"@);
    r
}

/// `По запросу "<query>" ничего не найдено`
pub fn nothing_found_message(query: &str) -> (r: String)
    ensures
        r@ == "По запросу "@ + quoted(query@) + " ничего не найдено"@,
{
    let mut r = String::from_str("По запросу ");
    r.append("\"");
    r.append(query);
    r.append("\"");
    r.append(" ничего не найдено");
    assert(r@ =~= "По запросу "@ + quoted(query@) + " ничего не найдено"@);
    r
}

/// The title lines of the first `k` schedules.
pub open spec fn info_lines(s: Seq<Schedule>, k: int) -> Seq<Seq<char>> {
    Seq::new(k as nat, |i: int| info_text(s[i].schedule_type))
}

/// The answer to an ambiguous search: how many schedules were found and the
/// titles of at most ten of them.
pub open spec fn many_found_text(s: Seq<Schedule>) -> Seq<char> {
    let shown = if s.len() < 10 {
        s.len() as int
    } else {
        10
    };
    "Найдено несколько вариантов ("@ + int_str(s.len() as int)
        + "). Уточните запрос. Может быть, вы искали:\n"@ + join(info_lines(s, shown), "\n"@)
}

/// An ambiguous search is answered with the count of what was found and the
/// titles of the first ten found schedules, or of all of them where fewer
/// were found, in order, one per line.
pub proof fn lemma_many_found_lists_first_ten(s: Seq<Schedule>)
    ensures
        exists|titles: Seq<Seq<char>>|
            {
                &&& titles.len() == (if s.len() < 10 {
                    s.len()
                } else {
                    10
                })
                &&& forall|k: int|
                    0 <= k < titles.len() ==> #[trigger] titles[k] == info_text(s[k].schedule_type)
                &&& many_found_text(s) == "Найдено несколько вариантов ("@ + int_str(s.len() as int)
                    + "). Уточните запрос. Может быть, вы искали:\n"@ + join(titles, "\n"@)
            },
{
    let shown: int = if s.len() < 10 {
        s.len() as int
    } else {
        10
    };
    let titles = info_lines(s, shown);
    assert(titles.len() == (if s.len() < 10 {
        s.len()
    } else {
        10
    }));
}

pub fn many_found_message(found: &Vec<&Schedule>) -> (r: String)
    ensures
        r@ == many_found_text(found@.map_values(|s: &Schedule| *s)),
{
    let ghost all = found@.map_values(|s: &Schedule| *s);
    let n = found.len();
    let shown: usize = if n < 10 {
        n
    } else {
        10
    };
    let mut titles: Vec<String> = Vec::new();
    let mut i: usize = 0;
    while i < shown
        invariant
            i <= shown,
            shown <= n,
            n == found@.len(),
            all == found@.map_values(|s: &Schedule| *s),
            titles@.len() == i,
            string_views(titles@) == info_lines(all, i as int),
        decreases shown - i,
    {
        let schedule: &Schedule = found[i];
        let title = schedule.format_info();
        assert(all[i as int] == *found@[i as int]);
        assert(title@ == info_text(all[i as int].schedule_type));
        let ghost before = titles@;
        titles.push(title);
        assert forall|k: int| 0 <= k <= i implies #[trigger] string_views(titles@)[k] == info_lines(
            all,
            i + 1,
        )[k] by {
            if k < i {
                assert(titles@[k] == before[k]);
                assert(string_views(before)[k] == info_lines(all, i as int)[k]);
            }
        }
        i = i + 1;
        assert(string_views(titles@) =~= info_lines(all, i as int));
    }
    let mut r = String::from_str("Найдено несколько вариантов (");
    append_decimal(&mut r, n as u64);
    r.append("). Уточните запрос. Может быть, вы искали:\n");
    append_joined(&mut r, &titles, "\n");
    assert(r@ =~= many_found_text(all));
    r
}

/// What a `/schedule` search is answered with.
pub enum SearchReply<'a> {
    /// Nothing matched: this message says so.
    Nothing(String),
    /// Exactly one schedule matched: it is sent.
    One(&'a Schedule),
    /// Several matched: this message lists them.
    Many(String),
}

/// The answer to `/schedule <query>`.
pub fn search_reply<'a>(repo: &'a ScheduleRepo, query: &str) -> (r: SearchReply<'a>)
    ensures
        ({
            let found = search_result(repo.schedules(), query@);
            if found.len() == 0 {
                r matches SearchReply::Nothing(m) && m@ == "По запросу "@ + quoted(query@)
                    + " ничего не найдено"@
            } else if found.len() == 1 {
                r matches SearchReply::One(s) && *s == found[0]
            } else {
                r matches SearchReply::Many(m) && m@ == many_found_text(found)
            }
        }),
{
    let found = repo.search(query);
    let ghost expected = search_result(repo.schedules(), query@);
    if found.len() == 0 {
        SearchReply::Nothing(nothing_found_message(query))
    } else if found.len() == 1 {
        SearchReply::One(found[0])
    } else {
        let m = many_found_message(&found);
        assert(found@.map_values(|s: &Schedule| *s) =~= expected);
        SearchReply::Many(m)
    }
}

/// What `/myschedule` is answered with.
pub enum MyScheduleReply<'a> {
    /// The user has no group yet: they are asked to set one.
    NoGroup,
    /// The user's group has no schedule: this message says so.
    NotFound(String),
    /// The schedule of the user's group, to be sent.
    Found(&'a Schedule),
}

/// The answer to `/myschedule` for a user whose group is `group`.
pub fn my_schedule_reply<'a>(repo: &'a ScheduleRepo, group: Option<i32>) -> (r: MyScheduleReply<'a>)
    ensures
        match group {
            None => r is NoGroup,
            Some(g) => match last_group_index(repo.schedules(), g) {
                None => r matches MyScheduleReply::NotFound(m) && m@ == "Расписание для группы "@
                    + quoted(int_str(g as int)) + " не найдено"@,
                Some(i) => r matches MyScheduleReply::Found(s) && *s == repo.schedules()[i],
            },
        },
{
    match group {
        None => MyScheduleReply::NoGroup,
        Some(group) => match repo.get_by_group_number(group) {
            Some(schedule) => MyScheduleReply::Found(schedule),
            None => MyScheduleReply::NotFound(schedule_not_found_message(group)),
        },
    }
}

/// A schedule message: the text of a day and the keyboard under it.
pub struct ScheduleMessage {
    pub text: String,
    pub keyboard: Vec<Vec<Button>>,
}

/// The message that sends `schedule` for `date`, showing that date's week;
/// `today` is the current date.
pub fn schedule_message(schedule: &Schedule, date: Date, today: Date) -> (r: ScheduleMessage)
    requires
        date.valid(),
        today.valid(),
        has_neighbours(date),
    ensures
        r.text@ == day_text(
            *schedule,
            date,
            week_type_for_week(iso_week_of(date.year as int, date.month as int, date.day as int)),
        ),
        keyboard_ok(r.keyboard@, schedule.schedule_type, date, today),
{
    let week_type = WeekType::for_date(date);
    let text = schedule.format_for_day(date, week_type);
    let keyboard = inline_buttons(&schedule.schedule_type, date, today);
    ScheduleMessage { text, keyboard }
}

} // verus!
