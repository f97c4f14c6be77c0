//! The text of a schedule for one day, as the bot sends it.
use vstd::prelude::*;

use crate::calendar::{weekday_of, Date};
use crate::structures::{Class, Schedule, ScheduleVariant, WeekType};
use crate::text::{append_int, append_pad2, int_str, join, pad2, trim, trim_str};

verus! {

pub open spec fn weekday_name(i: int) -> Seq<char> {
    if i == 0 {
        "Понедельник"@
    } else if i == 1 {
        "Вторник"@
    } else if i == 2 {
        "Среда"@
    } else if i == 3 {
        "Четверг"@
    } else if i == 4 {
        "Пятница"@
    } else if i == 5 {
        "Суббота"@
    } else {
        "Воскресенье"@
    }
}

pub open spec fn week_type_header(w: WeekType) -> Seq<char> {
    match w {
        WeekType::Top => "верхняя неделя"@,
        WeekType::Bottom => "нижняя неделя"@,
        WeekType::All => "обе недели"@,
    }
}

pub open spec fn week_type_short(w: WeekType) -> Seq<char> {
    match w {
        WeekType::Top => "верхняя"@,
        WeekType::Bottom => "нижняя"@,
        WeekType::All => "обе"@,
    }
}

/// A class held in `class_week` is shown when `requested` is asked for.
pub open spec fn week_matches(requested: WeekType, class_week: WeekType) -> bool {
    match requested {
        WeekType::All => true,
        WeekType::Top => class_week == WeekType::Top || class_week == WeekType::All,
        WeekType::Bottom => class_week == WeekType::Bottom || class_week == WeekType::All,
    }
}

pub open spec fn class_title(c: Class) -> Seq<char> {
    c.subject@ + " ("@ + trim(c.class_type@) + ")"@
}

pub open spec fn time_range(from: Seq<char>, to: Seq<char>) -> Seq<char> {
    from + "-"@ + to
}

pub open spec fn audience(location: Seq<char>, room: Seq<char>) -> Seq<char> {
    if location.len() == 0 && room.len() == 0 {
        "не указана"@
    } else {
        location + " "@ + room
    }
}

/// The title line of a schedule.
pub open spec fn info_text(v: ScheduleVariant) -> Seq<char> {
    match v {
        ScheduleVariant::Group(g) => "Расписание группы "@ + int_str(g.number as int),
        ScheduleVariant::Teacher(t) => "Расписание преподавателя "@ + t.name@ + " ("@ + t.position@
            + ")"@,
    }
}

/// The lines that describe one class in a schedule of kind `v` for week `wt`.
pub open spec fn class_lines(v: ScheduleVariant, wt: WeekType, c: Class) -> Seq<Seq<char>> {
    let first = time_range(c.time.time_from@, c.time.time_to@) + " - "@ + class_title(c);
    let second = match v {
        ScheduleVariant::Group(_) => "Преподаватель: "@ + (if trim(c.teacher@).len() == 0 {
            "не указан"@
        } else {
            trim(c.teacher@)
        }),
        ScheduleVariant::Teacher(_) => "Группа: "@ + int_str(c.group_number as int),
    };
    let third = "Ауд.: "@ + audience(c.location@, c.room@);
    let base = seq![first, second, third];
    let with_week = if wt == WeekType::All && c.week_type != WeekType::All {
        base.push("Неделя: "@ + week_type_short(c.week_type))
    } else {
        base
    };
    if c.note@.len() > 0 {
        with_week.push("Примечание: "@ + c.note@)
    } else {
        with_week
    }
}

pub open spec fn class_block(v: ScheduleVariant, wt: WeekType, c: Class) -> Seq<char> {
    join(class_lines(v, wt, c), "\n"@)
}

/// The blocks of the classes that week `wt` shows, in order.
pub open spec fn visible_blocks(v: ScheduleVariant, wt: WeekType, classes: Seq<Class>) -> Seq<
    Seq<char>,
>
    decreases classes.len(),
{
    if classes.len() == 0 {
        Seq::empty()
    } else {
        let rest = visible_blocks(v, wt, classes.drop_last());
        if week_matches(wt, classes.last().week_type) {
            rest.push(class_block(v, wt, classes.last()))
        } else {
            rest
        }
    }
}

/// Asking for both weeks shows every class of the day, and a class held on
/// both weeks shows whichever week is asked for.
pub proof fn lemma_all_weeks_show_every_class(v: ScheduleVariant, classes: Seq<Class>)
    ensures
        visible_blocks(v, WeekType::All, classes).len() == classes.len(),
        forall|w: WeekType| #[trigger] week_matches(w, WeekType::All),
    decreases classes.len(),
{
    if classes.len() > 0 {
        lemma_all_weeks_show_every_class(v, classes.drop_last());
    }
}

/// The top week never shows a bottom-week class, nor the bottom week a
/// top-week class.
pub proof fn lemma_weeks_exclude_each_other()
    ensures
        !week_matches(WeekType::Top, WeekType::Bottom),
        !week_matches(WeekType::Bottom, WeekType::Top),
{
}

/// The header of a day: title, weekday, date and week type.
pub open spec fn day_header(s: Schedule, d: Date, wt: WeekType) -> Seq<char> {
    info_text(s.schedule_type) + "\n"@ + weekday_name(
        weekday_of(d.year as int, d.month as int, d.day as int),
    ) + ", "@ + pad2(d.day as nat) + "."@ + pad2(d.month as nat) + "."@ + int_str(d.year as int)
        + " ("@ + week_type_header(wt) + ")"@
}

/// The whole text of schedule `s` on day `d` for week `wt`.
pub open spec fn day_text(s: Schedule, d: Date, wt: WeekType) -> Seq<char> {
    let wd = weekday_of(d.year as int, d.month as int, d.day as int);
    let blocks = visible_blocks(s.schedule_type, wt, s.week@[wd]@);
    if blocks.len() == 0 {
        day_header(s, d, wt) + "\nЗанятий нет."@
    } else {
        day_header(s, d, wt) + "\n\n"@ + join(blocks, "\n\n"@)
    }
}

pub open spec fn string_views(v: Seq<String>) -> Seq<Seq<char>> {
    v.map_values(|s: String| s@)
}

/// Appends `parts` joined with `sep`.
pub fn append_joined(out: &mut String, parts: &Vec<String>, sep: &str)
    ensures
        final(out)@ == old(out)@ + join(string_views(parts@), sep@),
{
    let n = parts.len();
    let ghost start = out@;
    let ghost views = string_views(parts@);
    let mut i: usize = 0;
    assert(views.take(0) =~= Seq::<Seq<char>>::empty());
    while i < n
        invariant
            i <= n,
            n == parts@.len(),
            views == string_views(parts@),
            out@ == start + join(views.take(i as int), sep@),
        decreases n - i,
    {
        let ghost before = views.take(i as int);
        assert(views.take(i + 1).drop_last() =~= before);
        assert(views.take(i + 1).last() == parts@[i as int]@);
        if i > 0 {
            out.append(sep);
        }
        out.append(parts[i].as_str());
        i = i + 1;
        proof {
            if i == 1 {
                assert(before =~= Seq::<Seq<char>>::empty());
                assert(out@ =~= start + join(views.take(i as int), sep@));
            } else {
                assert(out@ =~= start + join(views.take(i as int), sep@));
            }
        }
    }
    assert(views.take(n as int) =~= views);
}

fn format_weekday(weekday: u32) -> (r: &'static str)
    ensures
        r@ == weekday_name(weekday as int),
{
    if weekday == 0 {
        "Понедельник"
    } else if weekday == 1 {
        "Вторник"
    } else if weekday == 2 {
        "Среда"
    } else if weekday == 3 {
        "Четверг"
    } else if weekday == 4 {
        "Пятница"
    } else if weekday == 5 {
        "Суббота"
    } else {
        "Воскресенье"
    }
}

pub fn format_week_type_header(week_type: &WeekType) -> (r: &'static str)
    ensures
        r@ == week_type_header(*week_type),
{
    match week_type {
        WeekType::Top => "верхняя неделя",
        WeekType::Bottom => "нижняя неделя",
        WeekType::All => "обе недели",
    }
}

pub fn format_week_type_short(week_type: &WeekType) -> (r: &'static str)
    ensures
        r@ == week_type_short(*week_type),
{
    match week_type {
        WeekType::Top => "верхняя",
        WeekType::Bottom => "нижняя",
        WeekType::All => "обе",
    }
}

pub fn matches_week_type(requested: &WeekType, class_week_type: &WeekType) -> (r: bool)
    ensures
        r == week_matches(*requested, *class_week_type),
{
    match requested {
        WeekType::All => true,
        WeekType::Top => match class_week_type {
            WeekType::Top | WeekType::All => true,
            WeekType::Bottom => false,
        },
        WeekType::Bottom => match class_week_type {
            WeekType::Bottom | WeekType::All => true,
            WeekType::Top => false,
        },
    }
}

pub fn format_class_title(class: &Class) -> (r: String)
    ensures
        r@ == class_title(*class),
{
    let mut title = String::from_str(class.subject.as_str());
    title.append(" (");
    title.append(trim_str(class.class_type.as_str()));
    title.append(")");
    title
}

pub fn format_time_range(time_from: &str, time_to: &str) -> (r: String)
    ensures
        r@ == time_range(time_from@, time_to@),
{
    let mut r = String::from_str(time_from);
    r.append("-");
    r.append(time_to);
    r
}

pub fn format_audience(location: &str, room: &str) -> (r: String)
    ensures
        r@ == audience(location@, room@),
{
    if location.is_empty() && room.is_empty() {
        return String::from_str("не указана");
    }
    let mut r = String::from_str(location);
    r.append(" ");
    r.append(room);
    r
}

/// The lines describing one class, joined with newlines.
fn format_class_block(variant: &ScheduleVariant, week_type: WeekType, class: &Class) -> (r: String)
    ensures
        r@ == class_block(*variant, week_type, *class),
{
    let mut lines: Vec<String> = Vec::new();

    let mut first = format_time_range(class.time.time_from.as_str(), class.time.time_to.as_str());
    first.append(" - ");
    let title = format_class_title(class);
    first.append(title.as_str());
    lines.push(first);

    match variant {
        ScheduleVariant::Group(_) => {
            let trimmed = trim_str(class.teacher.as_str());
            let teacher = if trimmed.is_empty() {
                "не указан"
            } else {
                trimmed
            };
            let mut line = String::from_str("Преподаватель: ");
            line.append(teacher);
            lines.push(line);
        },
        ScheduleVariant::Teacher(_) => {
            let mut line = String::from_str("Группа: ");
            append_int(&mut line, class.group_number as i64);
            lines.push(line);
        },
    }

    let mut third = String::from_str("Ауд.: ");
    let aud = format_audience(class.location.as_str(), class.room.as_str());
    third.append(aud.as_str());
    lines.push(third);

    if week_type == WeekType::All && class.week_type != WeekType::All {
        let mut line = String::from_str("Неделя: ");
        line.append(format_week_type_short(&class.week_type));
        lines.push(line);
    }

    if !class.note.as_str().is_empty() {
        let mut line = String::from_str("Примечание: ");
        line.append(class.note.as_str());
        lines.push(line);
    }

    let mut r = String::new();
    append_joined(&mut r, &lines, "\n");
    assert(string_views(lines@) =~= class_lines(*variant, week_type, *class));
    assert(r@ =~= class_block(*variant, week_type, *class));
    r
}

/// Formatting a schedule as text.
pub trait ScheduleFormatting {
    /// The schedule of `day`, showing the classes of `week_type`.
    fn format_for_day(&self, day: Date, week_type: WeekType) -> String
        requires
            day.valid(),
    ;

    /// The title line: whose schedule this is.
    fn format_info(&self) -> String;
}

impl ScheduleFormatting for Schedule {
    fn format_for_day(&self, day: Date, week_type: WeekType) -> (r: String)
        ensures
            r@ == day_text(*self, day, week_type),
    {
        let weekday = day.weekday_from_monday();
        let mut string = self.format_info();
        string.append("\n");
        string.append(format_weekday(weekday));
        string.append(", ");
        append_pad2(&mut string, day.day);
        string.append(".");
        append_pad2(&mut string, day.month);
        string.append(".");
        append_int(&mut string, day.year as i64);
        string.append(" (");
        string.append(format_week_type_header(&week_type));
        string.append(")");
        assert(string@ =~= day_header(*self, day, week_type));

        let classes = &self.week[weekday as usize];
        let ghost cs = classes@;
        let mut blocks: Vec<String> = Vec::new();
        let n = classes.len();
        let mut i: usize = 0;
        assert(cs.take(0) =~= Seq::<Class>::empty());
        while i < n
            invariant
                i <= n,
                n == cs.len(),
                cs == classes@,
                string_views(blocks@) == visible_blocks(
                    self.schedule_type,
                    week_type,
                    cs.take(i as int),
                ),
            decreases n - i,
        {
            let class = &classes[i];
            assert(cs.take(i + 1).drop_last() =~= cs.take(i as int));
            assert(cs.take(i + 1).last() == cs[i as int]);
            if matches_week_type(&week_type, &class.week_type) {
                let block = format_class_block(&self.schedule_type, week_type, class);
                blocks.push(block);
                assert(string_views(blocks@) =~= visible_blocks(
                    self.schedule_type,
                    week_type,
                    cs.take(i + 1),
                ));
            }
            i = i + 1;
        }
        assert(cs.take(n as int) =~= cs);

        if blocks.len() == 0 {
            string.append("\nЗанятий нет.");
            return string;
        }

        string.append("\n\n");
        append_joined(&mut string, &blocks, "\n\n");
        string
    }

    fn format_info(&self) -> (r: String)
        ensures
            r@ == info_text(self.schedule_type),
    {
        match &self.schedule_type {
            ScheduleVariant::Group(group) => {
                let mut r = String::from_str("Расписание группы ");
                append_int(&mut r, group.number as i64);
                r
            },
            ScheduleVariant::Teacher(teacher) => {
                let mut r = String::from_str("Расписание преподавателя ");
                r.append(teacher.name.as_str());
                r.append(" (");
                r.append(teacher.position.as_str());
                r.append(")");
                r
            },
        }
    }
}


/// The weekday names, Monday first: the seven Russian day names in order,
/// no two alike.
pub proof fn lemma_weekday_names()
    ensures
        weekday_name(0) == "Понедельник"@,
        weekday_name(1) == "Вторник"@,
        weekday_name(2) == "Среда"@,
        weekday_name(3) == "Четверг"@,
        weekday_name(4) == "Пятница"@,
        weekday_name(5) == "Суббота"@,
        weekday_name(6) == "Воскресенье"@,
        forall|i: int, j: int|
            0 <= i < 7 && 0 <= j < 7 && i != j ==> #[trigger] weekday_name(i) != #[trigger] weekday_name(j),
{
    reveal_strlit("Понедельник");
    reveal_strlit("Вторник");
    reveal_strlit("Среда");
    reveal_strlit("Четверг");
    reveal_strlit("Пятница");
    reveal_strlit("Суббота");
    reveal_strlit("Воскресенье");
    assert forall|i: int, j: int|
        0 <= i < 7 && 0 <= j < 7 && i != j implies #[trigger] weekday_name(i) != #[trigger] weekday_name(j) by {
        assert(weekday_name(i)[0] != weekday_name(j)[0] || weekday_name(i)[1] != weekday_name(j)[1]
            || weekday_name(i).len() != weekday_name(j).len());
    }
}

} // verus!
