//! One schedule page: a card per weekday, a table row per class.
use vstd::prelude::*;

use crate::structures::{Class, ClassTime, Group, Schedule, ScheduleVariant, Teacher, WeekType};
use crate::text::{
    is_whitespace, lemma_trim_unchanged,    append_int, chars_of, concat, find_char, first_index, int_str, lemma_first_index, parse_i32,
    remove_char, remove_char_str, split, split_str, str_equals, str_parse_i32, trim, trim_str,
};
use super::html::{
    attr, css_selector_parses, document_selection_len, element_attribute, element_selection_len,
    element_text_pieces, read_page, select_document, select_within, text_pieces, Element, Page,
    Pattern,
};
use super::teachers::option_views;
use crate::formatting::{lemma_weekday_names, weekday_name};
use super::{element_text, opt_view, piece_views, selector, ParseError};

verus! {

/// The weekday a card header names, Monday as 0.
pub open spec fn day_index_of(name: Seq<char>) -> Option<int> {
    let t = trim(name);
    if t == "Понедельник"@ {
        Some(0)
    } else if t == "Вторник"@ {
        Some(1)
    } else if t == "Среда"@ {
        Some(2)
    } else if t == "Четверг"@ {
        Some(3)
    } else if t == "Пятница"@ {
        Some(4)
    } else if t == "Суббота"@ {
        Some(5)
    } else if t == "Воскресенье"@ {
        Some(6)
    } else {
        None
    }
}

/// The week type a class's marker title names.
pub open spec fn week_type_of_title(title: Seq<char>) -> Option<WeekType> {
    let t = trim(title);
    if t == "Обе недели"@ {
        Some(WeekType::All)
    } else if t == "Верхняя неделя"@ {
        Some(WeekType::Top)
    } else if t == "Нижняя неделя"@ {
        Some(WeekType::Bottom)
    } else {
        None
    }
}

/// A card header names the weekday it is for: the name of the `i`-th day
/// counted from Monday, with any surrounding whitespace, is read as `i`, and
/// a name is read as `i` only where it is that day's name.
pub proof fn lemma_day_names(t: Seq<char>)
    ensures
        forall|i: int| 0 <= i < 7 ==> #[trigger] day_index_of(weekday_name(i)) == Some(i),
        day_index_of(t) matches Some(i) ==> 0 <= i < 7 && trim(t) == weekday_name(i),
{
    lemma_weekday_names();
    reveal_strlit("Понедельник");
    reveal_strlit("Вторник");
    reveal_strlit("Среда");
    reveal_strlit("Четверг");
    reveal_strlit("Пятница");
    reveal_strlit("Суббота");
    reveal_strlit("Воскресенье");
    assert forall|i: int| 0 <= i < 7 implies #[trigger] day_index_of(weekday_name(i)) == Some(i) by {
        let name = weekday_name(i);
        assert(name.len() > 0);
        assert(!is_whitespace(name[0]));
        assert(!is_whitespace(name.last()));
        lemma_trim_unchanged(name);
    }
}

/// The position of a weekday in the week, from its Russian name.
pub fn day_ordinal(name: &str) -> (r: Option<usize>)
    ensures
        r matches Some(i) ==> day_index_of(name@) == Some(i as int),
        r is None ==> day_index_of(name@) is None,
{
    let t = trim_str(name);
    if str_equals(t, "Понедельник") {
        Some(0)
    } else if str_equals(t, "Вторник") {
        Some(1)
    } else if str_equals(t, "Среда") {
        Some(2)
    } else if str_equals(t, "Четверг") {
        Some(3)
    } else if str_equals(t, "Пятница") {
        Some(4)
    } else if str_equals(t, "Суббота") {
        Some(5)
    } else if str_equals(t, "Воскресенье") {
        Some(6)
    } else {
        None
    }
}

/// The week type from the title of a class's week marker.
pub fn parse_week_type(title: &str) -> (r: Result<WeekType, ParseError>)
    ensures
        match week_type_of_title(title@) {
            Some(w) => r == Ok::<WeekType, ParseError>(w),
            None => r == Err::<WeekType, ParseError>(ParseError::UnknownWeekType),
        },
{
    let t = trim_str(title);
    if str_equals(t, "Обе недели") {
        Ok(WeekType::All)
    } else if str_equals(t, "Верхняя неделя") {
        Ok(WeekType::Top)
    } else if str_equals(t, "Нижняя неделя") {
        Ok(WeekType::Bottom)
    } else {
        Err(ParseError::UnknownWeekType)
    }
}

/// The trimmed pieces that are not empty, in order.
pub open spec fn nonempty_trimmed(pieces: Seq<Seq<char>>) -> Seq<Seq<char>>
    decreases pieces.len(),
{
    if pieces.len() == 0 {
        Seq::empty()
    } else {
        let rest = nonempty_trimmed(pieces.drop_last());
        if trim(pieces.last()).len() > 0 {
            rest.push(trim(pieces.last()))
        } else {
            rest
        }
    }
}

pub open spec fn nth_or_empty(s: Seq<Seq<char>>, i: int) -> Seq<char> {
    if 0 <= i < s.len() {
        s[i]
    } else {
        Seq::empty()
    }
}

/// A cell's text without line breaks and surrounding whitespace.
pub open spec fn cell_text(s: Seq<char>) -> Seq<char> {
    trim(remove_char(s, '\n'))
}

/// The building and room of a room cell `"<building> <room>"`; the sports
/// building keeps its whole name as the location.
pub open spec fn location_and_room(room_text: Seq<char>) -> (Seq<char>, Seq<char>) {
    let t = trim(room_text);
    match first_index(t, ' ') {
        Some(i) => if t.take(i) == "Спортивный"@ {
            (t.take(i) + " "@ + t.skip(i + 1), Seq::empty())
        } else {
            (t.take(i), t.skip(i + 1))
        },
        None => (t, Seq::empty()),
    }
}

/// `c` is the class that a table row with these cells describes.
pub open spec fn class_fields(
    c: Class,
    time_text: Seq<char>,
    week_type: WeekType,
    room_text: Seq<char>,
    group_number: i32,
    subject_pieces: Seq<Seq<char>>,
    teacher_text: Seq<char>,
) -> bool {
    let times = split(time_text, '-');
    let subject = nonempty_trimmed(subject_pieces);
    &&& c.time.time_from@ == trim(times[0])
    &&& c.time.time_to@ == (if times.len() >= 2 {
        trim(times[1])
    } else {
        Seq::empty()
    })
    &&& c.week_type == week_type
    &&& c.location@ == location_and_room(room_text).0
    &&& c.room@ == location_and_room(room_text).1
    &&& c.group_number == group_number
    &&& c.subject@ == nth_or_empty(subject, 0)
    &&& c.class_type@ == nth_or_empty(subject, 1)
    &&& c.note@ == nth_or_empty(subject, 2)
    &&& c.teacher@ == cell_text(teacher_text)
}

/// `r` is the class of a row with these cell texts, or the first thing wrong
/// with them.
pub open spec fn class_from_text(
    r: Result<Class, ParseError>,
    time_text: Seq<char>,
    week_type_title: Option<Seq<char>>,
    room_text: Seq<char>,
    group_text: Seq<char>,
    subject_pieces: Seq<Seq<char>>,
    teacher_text: Seq<char>,
) -> bool {
    match week_type_title {
        None => r == Err::<Class, ParseError>(ParseError::ClassHasNoWeekTypeTitle),
        Some(title) => match week_type_of_title(title) {
            None => r == Err::<Class, ParseError>(ParseError::UnknownWeekType),
            Some(w) => match parse_i32(cell_text(group_text)) {
                None => r == Err::<Class, ParseError>(ParseError::GroupNumberNotANumber),
                Some(g) => r matches Ok(c) && class_fields(
                    c,
                    time_text,
                    w,
                    room_text,
                    g,
                    subject_pieces,
                    teacher_text,
                ),
            },
        },
    }
}

fn nonempty_trimmed_strs(pieces: &Vec<&str>) -> (r: Vec<String>)
    ensures
        r@.map_values(|s: String| s@) == nonempty_trimmed(pieces@.map_values(|p: &str| p@)),
{
    let ghost views = pieces@.map_values(|p: &str| p@);
    let mut r: Vec<String> = Vec::new();
    let n = pieces.len();
    let mut i: usize = 0;
    assert(views.take(0) =~= Seq::<Seq<char>>::empty());
    while i < n
        invariant
            i <= n,
            n == pieces@.len(),
            views == pieces@.map_values(|p: &str| p@),
            r@.map_values(|s: String| s@) == nonempty_trimmed(views.take(i as int)),
        decreases n - i,
    {
        assert(views.take(i + 1).drop_last() =~= views.take(i as int));
        assert(views.take(i + 1).last() == pieces@[i as int]@);
        let t = trim_str(pieces[i]);
        if !t.is_empty() {
            r.push(String::from_str(t));
            assert(r@.map_values(|s: String| s@) =~= nonempty_trimmed(views.take(i + 1)));
        }
        i = i + 1;
    }
    assert(views.take(n as int) =~= views);
    r
}

fn nth_or_empty_string(v: &Vec<String>, i: usize) -> (r: String)
    ensures
        r@ == nth_or_empty(v@.map_values(|s: String| s@), i as int),
{
    if i < v.len() {
        String::from_str(v[i].as_str())
    } else {
        String::new()
    }
}

/// A class from the texts of its table row's cells.
pub fn class_from_cells(
    time_text: &str,
    week_type_title: Option<&str>,
    room_text: &str,
    group_text: &str,
    subject_pieces: &Vec<&str>,
    teacher_text: &str,
) -> (r: Result<Class, ParseError>)
    ensures
        class_from_text(
            r,
            time_text@,
            match week_type_title {
                Some(t) => Some(t@),
                None => None,
            },
            room_text@,
            group_text@,
            subject_pieces@.map_values(|p: &str| p@),
            teacher_text@,
        ),
{
    let title = match week_type_title {
        Some(title) => title,
        None => return Err(ParseError::ClassHasNoWeekTypeTitle),
    };
    let week_type = parse_week_type(title)?;
    let group_clean = remove_char_str(group_text, '\n');
    let group_number = match str_parse_i32(trim_str(group_clean.as_str())) {
        Some(n) => n,
        None => return Err(ParseError::GroupNumberNotANumber),
    };

    let times = split_str(time_text, '-');
    proof {
        crate::text::lemma_split_nonempty(time_text@, '-');
    }
    let time_from = String::from_str(trim_str(times[0]));
    let time_to = if times.len() >= 2 {
        String::from_str(trim_str(times[1]))
    } else {
        String::new()
    };

    let room_trimmed = trim_str(room_text);
    let room_chars = chars_of(room_trimmed);
    let room_len = room_chars.len();
    proof {
        lemma_first_index(room_trimmed@, ' ');
    }
    let (location, room) = match find_char(&room_chars, ' ') {
        Some(i) => {
            let building = room_trimmed.substring_char(0, i);
            let rest = room_trimmed.substring_char(i + 1, room_len);
            if str_equals(building, "Спортивный") {
                let mut location = String::from_str(building);
                location.append(" ");
                location.append(rest);
                (location, String::new())
            } else {
                (String::from_str(building), String::from_str(rest))
            }
        },
        None => (String::from_str(room_trimmed), String::new()),
    };

    let subject_parts = nonempty_trimmed_strs(subject_pieces);
    let subject = nth_or_empty_string(&subject_parts, 0);
    let class_type = nth_or_empty_string(&subject_parts, 1);
    let note = nth_or_empty_string(&subject_parts, 2);

    let teacher_clean = remove_char_str(teacher_text, '\n');
    let teacher = String::from_str(trim_str(teacher_clean.as_str()));

    Ok(
        Class {
            location,
            room,
            teacher,
            group_number,
            time: ClassTime { time_from, time_to },
            week_type,
            subject,
            class_type,
            note,
        },
    )
}

/// `r` is what a table row gives: `time` is the text of its time header cell
/// (`None` where it has none), `title` the title of the week marker in its
/// first cell, `cells` the text pieces of its `td` cells, in order.
pub open spec fn class_of_row(
    r: Result<Class, ParseError>,
    time: Option<Seq<char>>,
    title: Option<Seq<char>>,
    cells: Seq<Seq<Seq<char>>>,
) -> bool {
    match time {
        None => r == Err::<Class, ParseError>(ParseError::ClassHasNoTimeCell),
        Some(time_text) => if cells.len() < 1 {
            r == Err::<Class, ParseError>(ParseError::ClassHasNoWeekTypeCell)
        } else if cells.len() < 2 {
            r == Err::<Class, ParseError>(ParseError::ClassHasNoRoomCell)
        } else if cells.len() < 3 {
            r == Err::<Class, ParseError>(ParseError::ClassHasNoGroupCell)
        } else if cells.len() < 4 {
            r == Err::<Class, ParseError>(ParseError::ClassHasNoSubjectCell)
        } else if cells.len() < 5 {
            r == Err::<Class, ParseError>(ParseError::ClassHasNoTeacherCell)
        } else {
            class_from_text(
                r,
                time_text,
                title,
                concat(cells[1]),
                concat(cells[2]),
                cells[3],
                concat(cells[4]),
            )
        },
    }
}

pub open spec fn cell_views(cells: Seq<Vec<&str>>) -> Seq<Seq<Seq<char>>> {
    cells.map_values(|c: Vec<&str>| piece_views(c@))
}

/// A class from what its table row holds: the time cell's text, the week
/// marker's title and the text pieces of the `td` cells.
pub fn class_from_row(time_text: Option<&str>, title: Option<&str>, cells: &Vec<Vec<&str>>) -> (r:
    Result<Class, ParseError>)
    ensures
        class_of_row(r, opt_view(time_text), opt_view(title), cell_views(cells@)),
{
    let time_text = match time_text {
        Some(t) => t,
        None => return Err(ParseError::ClassHasNoTimeCell),
    };
    if cells.len() < 1 {
        return Err(ParseError::ClassHasNoWeekTypeCell);
    }
    if cells.len() < 2 {
        return Err(ParseError::ClassHasNoRoomCell);
    }
    if cells.len() < 3 {
        return Err(ParseError::ClassHasNoGroupCell);
    }
    if cells.len() < 4 {
        return Err(ParseError::ClassHasNoSubjectCell);
    }
    if cells.len() < 5 {
        return Err(ParseError::ClassHasNoTeacherCell);
    }
    let room_text = element_text(&cells[1]);
    let group_text = element_text(&cells[2]);
    let teacher_text = element_text(&cells[4]);
    assert(piece_views(cells@[3]@) =~= cells@[3]@.map_values(|p: &str| p@));
    class_from_cells(
        time_text,
        title,
        room_text.as_str(),
        group_text.as_str(),
        &cells[3],
        teacher_text.as_str(),
    )
}

/// What a schedule page holds for one table row: the text nodes of each
/// time header cell, of each `td` cell, and the week marker titles of the
/// first `td` cell, each in document order.
pub struct Row<'a> {
    pub times: Vec<Vec<&'a str>>,
    pub cells: Vec<Vec<&'a str>>,
    pub titles: Vec<Option<&'a str>>,
}

/// The plain content of a table row.
pub struct RowText {
    pub times: Seq<Seq<Seq<char>>>,
    pub cells: Seq<Seq<Seq<char>>>,
    pub titles: Seq<Option<Seq<char>>>,
}

pub open spec fn row_text(r: Row) -> RowText {
    RowText { times: cell_views(r.times@), cells: cell_views(r.cells@), titles: option_views(r.titles@) }
}

pub open spec fn row_texts(rows: Seq<Row>) -> Seq<RowText> {
    rows.map_values(|r: Row| row_text(r))
}

/// `r` is the class of a row: read from its first time cell, the title of
/// the first week marker and its cells.
pub open spec fn row_class(r: Result<Class, ParseError>, row: RowText) -> bool {
    class_of_row(
        r,
        if row.times.len() == 0 {
            None
        } else {
            Some(concat(row.times[0]))
        },
        if row.titles.len() == 0 {
            None
        } else {
            row.titles[0]
        },
        row.cells,
    )
}

/// What is wrong with a row, if anything.
pub open spec fn row_error(row: RowText) -> Option<ParseError> {
    if row.times.len() == 0 {
        Some(ParseError::ClassHasNoTimeCell)
    } else if row.cells.len() < 1 {
        Some(ParseError::ClassHasNoWeekTypeCell)
    } else if row.cells.len() < 2 {
        Some(ParseError::ClassHasNoRoomCell)
    } else if row.cells.len() < 3 {
        Some(ParseError::ClassHasNoGroupCell)
    } else if row.cells.len() < 4 {
        Some(ParseError::ClassHasNoSubjectCell)
    } else if row.cells.len() < 5 {
        Some(ParseError::ClassHasNoTeacherCell)
    } else if row.titles.len() == 0 || row.titles[0] is None {
        Some(ParseError::ClassHasNoWeekTypeTitle)
    } else if week_type_of_title(row.titles[0]->0) is None {
        Some(ParseError::UnknownWeekType)
    } else if parse_i32(cell_text(concat(row.cells[2]))) is None {
        Some(ParseError::GroupNumberNotANumber)
    } else {
        None
    }
}

/// The error of the first bad row, in order.
pub open spec fn first_row_error(rows: Seq<RowText>) -> Option<ParseError>
    decreases rows.len(),
{
    if rows.len() == 0 {
        None
    } else {
        match row_error(rows[0]) {
            Some(e) => Some(e),
            None => first_row_error(rows.skip(1)),
        }
    }
}

/// `v` holds the classes of the rows, in order.
pub open spec fn rows_classes(v: Seq<Class>, rows: Seq<RowText>) -> bool {
    v.len() == rows.len() && forall|k: int|
        0 <= k < rows.len() ==> row_class(Ok::<Class, ParseError>(#[trigger] v[k]), rows[k])
}

/// `r` is what the rows give: the error of the first bad row, else their
/// classes.
pub open spec fn classes_of_rows(r: Result<Vec<Class>, ParseError>, rows: Seq<RowText>) -> bool {
    match first_row_error(rows) {
        Some(e) => r == Err::<Vec<Class>, ParseError>(e),
        None => r matches Ok(v) && rows_classes(v@, rows),
    }
}

/// What a schedule page holds for one day card: the text nodes of each
/// header, and the rows of each table body, in document order.
pub struct Card<'a> {
    pub headers: Vec<Vec<&'a str>>,
    pub bodies: Vec<Vec<Row<'a>>>,
}

/// The plain content of a day card.
pub struct CardText {
    pub headers: Seq<Seq<Seq<char>>>,
    pub bodies: Seq<Seq<RowText>>,
}

pub open spec fn card_text(c: Card) -> CardText {
    CardText {
        headers: cell_views(c.headers@),
        bodies: c.bodies@.map_values(|b: Vec<Row>| row_texts(b@)),
    }
}

pub open spec fn card_texts(cs: Seq<Card>) -> Seq<CardText> {
    cs.map_values(|c: Card| card_text(c))
}

/// `r` is what a day card gives: the classes of its first table body.
pub open spec fn day_classes(r: Result<Vec<Class>, ParseError>, card: CardText) -> bool {
    if card.bodies.len() == 0 {
        r == Err::<Vec<Class>, ParseError>(ParseError::DayHasNoTableBody)
    } else {
        classes_of_rows(r, card.bodies[0])
    }
}

/// The weekday a card is for, from its first header, Monday as 0.
pub open spec fn card_day(card: CardText) -> Result<int, ParseError> {
    if card.headers.len() == 0 {
        Err(ParseError::DayHasNoHeader)
    } else {
        match day_index_of(trim(remove_char(concat(card.headers[0]), '\n'))) {
            None => Err(ParseError::UnknownDayName),
            Some(d) => Ok(d),
        }
    }
}

/// What is wrong with a card, if anything: its header, then its table.
pub open spec fn card_error(card: CardText) -> Option<ParseError> {
    match card_day(card) {
        Err(e) => Some(e),
        Ok(_) => if card.bodies.len() == 0 {
            Some(ParseError::DayHasNoTableBody)
        } else {
            first_row_error(card.bodies[0])
        },
    }
}

/// The error of the first bad card, in order.
pub open spec fn first_card_error(cards: Seq<CardText>) -> Option<ParseError>
    decreases cards.len(),
{
    if cards.len() == 0 {
        None
    } else {
        match card_error(cards[0]) {
            Some(e) => Some(e),
            None => first_card_error(cards.skip(1)),
        }
    }
}

/// The last card for weekday `d`, if any.
pub open spec fn last_card_of_day(cards: Seq<CardText>, d: int) -> Option<int>
    decreases cards.len(),
{
    if cards.len() == 0 {
        None
    } else if card_day(cards.last()) == Ok::<int, ParseError>(d) {
        Some(cards.len() - 1)
    } else {
        last_card_of_day(cards.drop_last(), d)
    }
}

/// `v` holds the classes of weekday `d`: those of the last card for it, or
/// none.
pub open spec fn week_slot(v: Seq<Class>, cards: Seq<CardText>, d: int) -> bool {
    match last_card_of_day(cards, d) {
        None => v.len() == 0,
        Some(k) => rows_classes(v, cards[k].bodies[0]),
    }
}

/// `r` is the schedule that the cards give: the error of the first bad card,
/// else each weekday filled by its last card.
pub open spec fn week_of_cards(
    r: Result<Schedule, ParseError>,
    cards: Seq<CardText>,
    schedule_type: ScheduleVariant,
) -> bool {
    match first_card_error(cards) {
        Some(e) => r == Err::<Schedule, ParseError>(e),
        None => r matches Ok(s) && s.schedule_type == schedule_type && forall|d: int|
            0 <= d < 7 ==> week_slot(#[trigger] s.week@[d]@, cards, d),
    }
}

/// The text nodes of each element under `path` that `pattern` finds.
pub open spec fn texts_under(source: Seq<char>, path: Seq<(Seq<char>, int)>, pattern: Seq<char>) -> Seq<
    Seq<Seq<char>>,
> {
    Seq::new(
        element_selection_len(source, path, pattern),
        |k: int| element_text_pieces(source, path.push((pattern, k))),
    )
}

/// The attribute `name` of each element under `path` that `pattern` finds.
pub open spec fn attrs_under(
    source: Seq<char>,
    path: Seq<(Seq<char>, int)>,
    pattern: Seq<char>,
    name: Seq<char>,
) -> Seq<Option<Seq<char>>> {
    Seq::new(
        element_selection_len(source, path, pattern),
        |k: int| element_attribute(source, path.push((pattern, k)), name),
    )
}

/// The row of a schedule page that `path` reaches.
pub open spec fn page_row(source: Seq<char>, path: Seq<(Seq<char>, int)>) -> RowText {
    RowText {
        times: texts_under(source, path, "th[scope=\"row\"]"@),
        cells: texts_under(source, path, "td"@),
        titles: if element_selection_len(source, path, "td"@) == 0 {
            Seq::empty()
        } else {
            attrs_under(source, path.push(("td"@, 0)), "i"@, "data-bs-title"@)
        },
    }
}

/// The rows of the table body that `path` reaches.
pub open spec fn page_body(source: Seq<char>, path: Seq<(Seq<char>, int)>) -> Seq<RowText> {
    Seq::new(
        element_selection_len(source, path, "tr"@),
        |k: int| page_row(source, path.push(("tr"@, k))),
    )
}

/// The day card of a schedule page that `path` reaches.
pub open spec fn page_card(source: Seq<char>, path: Seq<(Seq<char>, int)>) -> CardText {
    CardText {
        headers: texts_under(source, path, ".card-header"@),
        bodies: Seq::new(
            element_selection_len(source, path, "tbody"@),
            |b: int| page_body(source, path.push(("tbody"@, b))),
        ),
    }
}

/// The day cards of the schedule page `source`.
pub open spec fn page_cards(source: Seq<char>) -> Seq<CardText> {
    Seq::new(
        document_selection_len(source, ".card.my-4"@),
        |k: int| page_card(source, seq![(".card.my-4"@, k)]),
    )
}

/// Whether the patterns that a schedule page is read with are selectors.
pub open spec fn schedule_selectors_parse() -> bool {
    &&& css_selector_parses(".card.my-4"@)
    &&& css_selector_parses(".card-header"@)
    &&& css_selector_parses("tbody"@)
    &&& css_selector_parses("tr"@)
    &&& css_selector_parses("th[scope=\"row\"]"@)
    &&& css_selector_parses("td"@)
    &&& css_selector_parses("i"@)
}

/// `r` is what the schedule page `source` gives.
pub open spec fn schedule_of_page(
    r: Result<Schedule, ParseError>,
    source: Seq<char>,
    schedule_type: ScheduleVariant,
) -> bool {
    if !schedule_selectors_parse() {
        r == Err::<Schedule, ParseError>(ParseError::InvalidSelector)
    } else {
        week_of_cards(r, page_cards(source), schedule_type)
    }
}

/// The selectors a schedule page is read with.
pub struct SchedulePatterns {
    pub card: Pattern,
    pub header: Pattern,
    pub body: Pattern,
    pub row: Pattern,
    pub time: Pattern,
    pub cell: Pattern,
    pub marker: Pattern,
}

impl SchedulePatterns {
    pub open spec fn fixed(&self) -> bool {
        &&& self.card@ == ".card.my-4"@
        &&& self.header@ == ".card-header"@
        &&& self.body@ == "tbody"@
        &&& self.row@ == "tr"@
        &&& self.time@ == "th[scope=\"row\"]"@
        &&& self.cell@ == "td"@
        &&& self.marker@ == "i"@
    }
}

/// The selectors of a schedule page; an error where one does not parse.
pub fn schedule_patterns() -> (r: Result<SchedulePatterns, ParseError>)
    ensures
        r is Ok <==> schedule_selectors_parse(),
        r matches Ok(p) ==> p.fixed(),
        r matches Err(e) ==> e == ParseError::InvalidSelector,
{
    let card = selector(".card.my-4")?;
    let header = selector(".card-header")?;
    let body = selector("tbody")?;
    let row = selector("tr")?;
    let time = selector("th[scope=\"row\"]")?;
    let cell = selector("td")?;
    let marker = selector("i")?;
    Ok(SchedulePatterns { card, header, body, row, time, cell, marker })
}

/// The text nodes of each element under `element` that `pattern` finds.
fn read_texts<'a>(element: &Element<'a>, pattern: &Pattern) -> (r: Vec<Vec<&'a str>>)
    ensures
        cell_views(r@) == texts_under(element@.0, element@.1, pattern@),
{
    let found = select_within(element, pattern);
    let mut texts: Vec<Vec<&'a str>> = Vec::new();
    let n = found.len();
    let mut i: usize = 0;
    while i < n
        invariant
            i <= n,
            n == found@.len(),
            forall|k: int|
                0 <= k < n ==> #[trigger] found@[k]@ == (element@.0, element@.1.push((pattern@, k))),
            texts@.len() == i,
            forall|k: int|
                0 <= k < i ==> #[trigger] piece_views(texts@[k]@) == element_text_pieces(
                    element@.0,
                    element@.1.push((pattern@, k)),
                ),
        decreases n - i,
    {
        texts.push(text_pieces(&found[i]));
        i = i + 1;
    }
    assert(cell_views(texts@) =~= texts_under(element@.0, element@.1, pattern@));
    texts
}

/// The attribute `name` of each element under `element` that `pattern`
/// finds.
fn read_attrs<'a>(element: &Element<'a>, pattern: &Pattern, name: &str) -> (r: Vec<Option<&'a str>>)
    ensures
        option_views(r@) == attrs_under(element@.0, element@.1, pattern@, name@),
{
    let found = select_within(element, pattern);
    let mut values: Vec<Option<&'a str>> = Vec::new();
    let n = found.len();
    let mut i: usize = 0;
    while i < n
        invariant
            i <= n,
            n == found@.len(),
            forall|k: int|
                0 <= k < n ==> #[trigger] found@[k]@ == (element@.0, element@.1.push((pattern@, k))),
            values@.len() == i,
            forall|k: int|
                0 <= k < i ==> #[trigger] opt_view(values@[k]) == element_attribute(
                    element@.0,
                    element@.1.push((pattern@, k)),
                    name@,
                ),
        decreases n - i,
    {
        values.push(attr(&found[i], name));
        i = i + 1;
    }
    assert(option_views(values@) =~= attrs_under(element@.0, element@.1, pattern@, name@));
    values
}

/// A table row of a schedule page, as the page holds it.
pub fn read_row<'a>(row: &Element<'a>, patterns: &SchedulePatterns) -> (r: Row<'a>)
    requires
        patterns.fixed(),
    ensures
        row_text(r) == page_row(row@.0, row@.1),
{
    let times = read_texts(row, &patterns.time);
    let cells = read_texts(row, &patterns.cell);
    assert(cells@.len() == cell_views(cells@).len());
    let titles = if cells.len() == 0 {
        Vec::new()
    } else {
        let tds = select_within(row, &patterns.cell);
        read_attrs(&tds[0], &patterns.marker, "data-bs-title")
    };
    let r = Row { times, cells, titles };
    assert(row_text(r).titles =~= page_row(row@.0, row@.1).titles);
    r
}

/// A day card of a schedule page, as the page holds it.
pub fn read_card<'a>(card: &Element<'a>, patterns: &SchedulePatterns) -> (r: Card<'a>)
    requires
        patterns.fixed(),
    ensures
        card_text(r) == page_card(card@.0, card@.1),
{
    let headers = read_texts(card, &patterns.header);
    let found = select_within(card, &patterns.body);
    let ghost expected = page_card(card@.0, card@.1);
    let mut bodies: Vec<Vec<Row<'a>>> = Vec::new();
    let n = found.len();
    let mut i: usize = 0;
    while i < n
        invariant
            i <= n,
            n == found@.len(),
            patterns.fixed(),
            expected == page_card(card@.0, card@.1),
            n == expected.bodies.len(),
            forall|k: int|
                0 <= k < n ==> #[trigger] found@[k]@ == (card@.0, card@.1.push(("tbody"@, k))),
            bodies@.len() == i,
            forall|k: int| 0 <= k < i ==> #[trigger] row_texts(bodies@[k]@) == expected.bodies[k],
        decreases n - i,
    {
        let body = &found[i];
        let rows_found = select_within(body, &patterns.row);
        let mut rows: Vec<Row<'a>> = Vec::new();
        let m = rows_found.len();
        let mut j: usize = 0;
        while j < m
            invariant
                j <= m,
                m == rows_found@.len(),
                patterns.fixed(),
                forall|k: int|
                    0 <= k < m ==> #[trigger] rows_found@[k]@ == (body@.0, body@.1.push(("tr"@, k))),
                rows@.len() == j,
                forall|k: int|
                    0 <= k < j ==> #[trigger] row_text(rows@[k]) == page_row(
                        body@.0,
                        body@.1.push(("tr"@, k)),
                    ),
            decreases m - j,
        {
            rows.push(read_row(&rows_found[j], patterns));
            j = j + 1;
        }
        assert(row_texts(rows@) =~= page_body(body@.0, body@.1));
        assert(page_body(body@.0, body@.1) == expected.bodies[i as int]);
        bodies.push(rows);
        i = i + 1;
    }
    let r = Card { headers, bodies };
    assert(card_text(r).bodies =~= expected.bodies);
    r
}

/// The day cards of a schedule page, as the page holds them.
pub fn read_cards<'a>(page: &'a Page, patterns: &SchedulePatterns) -> (r: Vec<Card<'a>>)
    requires
        patterns.fixed(),
    ensures
        card_texts(r@) == page_cards(page@),
{
    let found = select_document(page, &patterns.card);
    let mut cards: Vec<Card<'a>> = Vec::new();
    let n = found.len();
    let mut i: usize = 0;
    while i < n
        invariant
            i <= n,
            n == found@.len(),
            n == document_selection_len(page@, ".card.my-4"@),
            patterns.fixed(),
            forall|k: int| 0 <= k < n ==> #[trigger] found@[k]@ == (page@, seq![(".card.my-4"@, k)]),
            cards@.len() == i,
            forall|k: int|
                0 <= k < i ==> #[trigger] card_text(cards@[k]) == page_card(
                    page@,
                    seq![(".card.my-4"@, k)],
                ),
        decreases n - i,
    {
        cards.push(read_card(&found[i], patterns));
        i = i + 1;
    }
    assert(card_texts(cards@) =~= page_cards(page@));
    cards
}

/// A class from its table row: the first time header cell, then the week,
/// room, group, subject and teacher cells, and the first week marker.
pub fn process_class(row: &Row) -> (r: Result<Class, ParseError>)
    ensures
        row_class(r, row_text(*row)),
{
    let time_text = if row.times.len() == 0 {
        None
    } else {
        Some(element_text(&row.times[0]))
    };
    let title = if row.titles.len() == 0 {
        None
    } else {
        row.titles[0]
    };
    let time_ref: Option<&str> = match &time_text {
        Some(t) => Some(t.as_str()),
        None => None,
    };
    class_from_row(time_ref, title, &row.cells)
}

/// The classes of rows, in order; the first bad row fails all.
pub fn classes_from_rows(rows: &Vec<Row>) -> (r: Result<Vec<Class>, ParseError>)
    ensures
        classes_of_rows(r, row_texts(rows@)),
{
    let ghost views = row_texts(rows@);
    let mut classes: Vec<Class> = Vec::new();
    let n = rows.len();
    let mut i: usize = 0;
    assert(views.skip(0) =~= views);
    while i < n
        invariant
            i <= n,
            n == rows@.len(),
            views == row_texts(rows@),
            first_row_error(views) == first_row_error(views.skip(i as int)),
            classes@.len() == i,
            forall|k: int|
                0 <= k < i ==> row_class(Ok::<Class, ParseError>(#[trigger] classes@[k]), views[k]),
        decreases n - i,
    {
        assert(views.skip(i as int)[0] == views[i as int]);
        assert(views.skip(i as int).skip(1) =~= views.skip(i + 1));
        let class = match process_class(&rows[i]) {
            Ok(class) => class,
            Err(e) => return Err(e),
        };
        classes.push(class);
        i = i + 1;
    }
    Ok(classes)
}

/// The classes of one day card: those of its first table body.
pub fn process_day(card: &Card) -> (r: Result<Vec<Class>, ParseError>)
    ensures
        day_classes(r, card_text(*card)),
{
    if card.bodies.len() == 0 {
        return Err(ParseError::DayHasNoTableBody);
    }
    classes_from_rows(&card.bodies[0])
}

/// The weekday of a card, from its first header.
pub fn day_of_card(card: &Card) -> (r: Result<usize, ParseError>)
    ensures
        match card_day(card_text(*card)) {
            Ok(d) => r == Ok::<usize, ParseError>(d as usize) && 0 <= d < 7,
            Err(e) => r == Err::<usize, ParseError>(e),
        },
{
    if card.headers.len() == 0 {
        return Err(ParseError::DayHasNoHeader);
    }
    let header_text = element_text(&card.headers[0]);
    let day_name = remove_char_str(header_text.as_str(), '\n');
    match day_ordinal(trim_str(day_name.as_str())) {
        Some(index) => Ok(index),
        None => Err(ParseError::UnknownDayName),
    }
}

/// The week the cards give: each card fills its weekday, later cards
/// replacing earlier ones; days without a card stay empty.
pub fn week_from_cards(cards: &Vec<Card>, schedule_type: ScheduleVariant) -> (r: Result<
    Schedule,
    ParseError,
>)
    ensures
        week_of_cards(r, card_texts(cards@), schedule_type),
{
    let ghost views = card_texts(cards@);
    let mut week: [Vec<Class>; 7] = [
        Vec::new(),
        Vec::new(),
        Vec::new(),
        Vec::new(),
        Vec::new(),
        Vec::new(),
        Vec::new(),
    ];
    let n = cards.len();
    let mut i: usize = 0;
    assert(views.skip(0) =~= views);
    assert forall|d: int| 0 <= d < 7 implies week_slot(#[trigger] week@[d]@, views.take(0), d) by {}
    while i < n
        invariant
            i <= n,
            n == cards@.len(),
            views == card_texts(cards@),
            first_card_error(views) == first_card_error(views.skip(i as int)),
            forall|d: int| 0 <= d < 7 ==> week_slot(#[trigger] week@[d]@, views.take(i as int), d),
        decreases n - i,
    {
        let ghost before = views.take(i as int);
        let ghost after = views.take(i + 1);
        assert(views.skip(i as int)[0] == views[i as int]);
        assert(views.skip(i as int).skip(1) =~= views.skip(i + 1));
        assert(after.drop_last() =~= before);
        assert(after.last() == views[i as int]);
        let day = match day_of_card(&cards[i]) {
            Ok(day) => day,
            Err(e) => return Err(e),
        };
        let classes = match process_day(&cards[i]) {
            Ok(classes) => classes,
            Err(e) => return Err(e),
        };
        let ghost old_week = week@;
        week.set(day, classes);
        assert forall|d: int| 0 <= d < 7 implies week_slot(#[trigger] week@[d]@, after, d) by {
            if d != day {
                assert(week@[d] == old_week[d]);
                assert(last_card_of_day(after, d) == last_card_of_day(before, d));
                match last_card_of_day(before, d) {
                    Some(k) => {
                        lemma_last_card_in_range(before, d);
                        assert(after[k] == before[k]);
                    },
                    None => {},
                }
            }
        }
        i = i + 1;
    }
    assert(views.take(n as int) =~= views);
    Ok(Schedule { schedule_type, week })
}

proof fn lemma_last_card_in_range(cards: Seq<CardText>, d: int)
    ensures
        last_card_of_day(cards, d) matches Some(k) ==> 0 <= k < cards.len(),
    decreases cards.len(),
{
    if cards.len() > 0 {
        lemma_last_card_in_range(cards.drop_last(), d);
    }
}

/// The week of a schedule page: each day card fills its weekday, later
/// cards replacing earlier ones; days without a card stay empty.
pub fn parse_schedule_page(html: &str, schedule_type: ScheduleVariant) -> (r: Result<
    Schedule,
    ParseError,
>)
    ensures
        schedule_of_page(r, html@, schedule_type),
{
    let page = read_page(html);
    let patterns = schedule_patterns()?;
    let cards = read_cards(&page, &patterns);
    week_from_cards(&cards, schedule_type)
}

/// The address of a schedule page: `<host><prefix><id>/`, with the group's
/// or the teacher's prefix and id.
pub open spec fn schedule_url_text(
    host: Seq<char>,
    group_prefix: Seq<char>,
    teacher_prefix: Seq<char>,
    v: ScheduleVariant,
) -> Seq<char> {
    match v {
        ScheduleVariant::Group(g) => host + group_prefix + int_str(g.id as int) + "/"@,
        ScheduleVariant::Teacher(t) => host + teacher_prefix + int_str(t.isu_id as int) + "/"@,
    }
}

/// The address of the page with a group's or a teacher's schedule.
pub fn schedule_url(
    host: &str,
    group_prefix: &str,
    teacher_prefix: &str,
    schedule_type: &ScheduleVariant,
) -> (r: String)
    ensures
        r@ == schedule_url_text(host@, group_prefix@, teacher_prefix@, *schedule_type),
{
    let mut r = String::from_str(host);
    match schedule_type {
        ScheduleVariant::Group(group) => {
            r.append(group_prefix);
            append_int(&mut r, group.id as i64);
        },
        ScheduleVariant::Teacher(teacher) => {
            r.append(teacher_prefix);
            append_int(&mut r, teacher.isu_id as i64);
        },
    }
    r.append("/");
    r
}

/// Every schedule to fetch: the groups first, then the teachers, each in
/// the order given.
pub fn schedule_variants(groups: Vec<Group>, teachers: Vec<Teacher>) -> (r: Vec<ScheduleVariant>)
    ensures
        r@.len() == groups@.len() + teachers@.len(),
        forall|i: int|
            0 <= i < groups@.len() ==> #[trigger] r@[i] == ScheduleVariant::Group(groups@[i]),
        forall|i: int|
            0 <= i < teachers@.len() ==> r@[groups@.len() + i] == ScheduleVariant::Teacher(
                #[trigger] teachers@[i],
            ),
{
    let ghost g0 = groups@;
    let ghost t0 = teachers@;
    let mut r: Vec<ScheduleVariant> = Vec::new();
    let mut groups = groups;
    let mut teachers = teachers;
    let gn = groups.len();
    let mut i: usize = 0;
    assert(g0.skip(0) =~= g0);
    while i < gn
        invariant
            i <= gn,
            gn == g0.len(),
            groups@ == g0.skip(i as int),
            r@.len() == i,
            forall|k: int| 0 <= k < i ==> #[trigger] r@[k] == ScheduleVariant::Group(g0[k]),
        decreases gn - i,
    {
        let g = groups.remove(0);
        r.push(ScheduleVariant::Group(g));
        assert(g0.skip(i as int).subrange(1, (gn - i) as int) =~= g0.skip(i + 1));
        i = i + 1;
    }
    let tn = teachers.len();
    let mut j: usize = 0;
    assert(t0.skip(0) =~= t0);
    while j < tn
        invariant
            j <= tn,
            tn == t0.len(),
            teachers@ == t0.skip(j as int),
            r@.len() == gn + j,
            gn == g0.len(),
            forall|k: int| 0 <= k < gn ==> #[trigger] r@[k] == ScheduleVariant::Group(g0[k]),
            forall|k: int| 0 <= k < j ==> r@[gn + k] == ScheduleVariant::Teacher(#[trigger] t0[k]),
        decreases tn - j,
    {
        let t = teachers.remove(0);
        r.push(ScheduleVariant::Teacher(t));
        assert(t0.skip(j as int).subrange(1, (tn - j) as int) =~= t0.skip(j + 1));
        j = j + 1;
    }
    r
}

} // verus!
