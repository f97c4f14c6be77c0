//! The page that lists the teachers, and the form key that the list needs.
use vstd::prelude::*;

use crate::structures::Teacher;
use crate::text::{
    chars_of, concat, find_char, first_index, lemma_first_index, parse_i32, str_parse_i32,
    strip_trailing, strip_trailing_str, trim, trim_str,
};
use super::html::{
    attr, css_selector_parses, document_selection_len, element_attribute, element_text_pieces,
    read_page, select_document, text_pieces, Page, Pattern,
};
use super::{element_text, href_id_piece, href_id_str, opt_view, piece_views, selector, ParseError};

verus! {

/// The name in a list entry `Name (Position)`: the text before the first `(`.
pub open spec fn teacher_name(text: Seq<char>) -> Seq<char> {
    match first_index(text, '(') {
        Some(i) => trim(text.take(i)),
        None => trim(text),
    }
}

/// The position in a list entry: the text after the first `(`, without the
/// closing parentheses.
pub open spec fn teacher_position(text: Seq<char>) -> Seq<char> {
    match first_index(text, '(') {
        Some(i) => strip_trailing(text.skip(i + 1), ')'),
        None => Seq::empty(),
    }
}

/// `r` is the teacher that a list entry with this link and text describes, or
/// the first thing wrong with the entry.
pub open spec fn teacher_from_text(r: Result<Teacher, ParseError>, href: Seq<char>, text: Seq<char>) -> bool {
    match href_id_piece(href) {
        None => r == Err::<Teacher, ParseError>(ParseError::InvalidHrefFormat),
        Some(piece) => match parse_i32(piece) {
            None => r == Err::<Teacher, ParseError>(ParseError::IsuIdNotANumber),
            Some(isu_id) => r matches Ok(t) && t.isu_id == isu_id && t.name@ == teacher_name(text)
                && t.position@ == teacher_position(text),
        },
    }
}

/// A teacher from the link and the text of their list entry.
pub fn teacher_from_parts(href: &str, text: &str) -> (r: Result<Teacher, ParseError>)
    ensures
        teacher_from_text(r, href@, text@),
{
    let piece = match href_id_str(href) {
        Some(piece) => piece,
        None => return Err(ParseError::InvalidHrefFormat),
    };
    let isu_id = match str_parse_i32(piece) {
        Some(isu_id) => isu_id,
        None => return Err(ParseError::IsuIdNotANumber),
    };
    let chars = chars_of(text);
    proof {
        lemma_first_index(text@, '(');
    }
    let (name, position) = match find_char(&chars, '(') {
        Some(i) => {
            assert(i < chars@.len());
            let before = text.substring_char(0, i);
            let after = text.substring_char(i + 1, chars.len());
            (String::from_str(trim_str(before)), String::from_str(strip_trailing_str(after, ')')))
        },
        None => (String::from_str(trim_str(text)), String::new()),
    };
    Ok(Teacher { name, position, isu_id })
}

/// `r` is what a teacher link gives: `href` is `None` where the link has no
/// `href`.
pub open spec fn teacher_from_link(
    r: Result<Teacher, ParseError>,
    href: Option<Seq<char>>,
    text: Seq<char>,
) -> bool {
    match href {
        None => r == Err::<Teacher, ParseError>(ParseError::TeacherHasNoHref),
        Some(h) => teacher_from_text(r, h, text),
    }
}

/// A teacher from what their list link holds.
pub fn teacher_from_entry(href: Option<&str>, text: &str) -> (r: Result<Teacher, ParseError>)
    ensures
        teacher_from_link(r, opt_view(href), text@),
{
    match href {
        Some(href) => teacher_from_parts(href, text),
        None => Err(ParseError::TeacherHasNoHref),
    }
}

/// What the teachers page holds for one teacher: the link's `href` and its
/// text nodes.
pub struct TeacherLink<'a> {
    pub href: Option<&'a str>,
    pub text: Vec<&'a str>,
}

/// The plain content of a teacher link.
pub struct TeacherLinkText {
    pub href: Option<Seq<char>>,
    pub text: Seq<Seq<char>>,
}

pub open spec fn link_text(l: TeacherLink) -> TeacherLinkText {
    TeacherLinkText { href: opt_view(l.href), text: piece_views(l.text@) }
}

pub open spec fn link_texts(ls: Seq<TeacherLink>) -> Seq<TeacherLinkText> {
    ls.map_values(|l: TeacherLink| link_text(l))
}

/// What is wrong with a teacher link, if anything.
pub open spec fn link_error(l: TeacherLinkText) -> Option<ParseError> {
    match l.href {
        None => Some(ParseError::TeacherHasNoHref),
        Some(h) => match href_id_piece(h) {
            None => Some(ParseError::InvalidHrefFormat),
            Some(piece) => match parse_i32(piece) {
                None => Some(ParseError::IsuIdNotANumber),
                Some(_) => None,
            },
        },
    }
}

/// The error of the first bad link, in order.
pub open spec fn first_link_error(ls: Seq<TeacherLinkText>) -> Option<ParseError>
    decreases ls.len(),
{
    if ls.len() == 0 {
        None
    } else {
        match link_error(ls[0]) {
            Some(e) => Some(e),
            None => first_link_error(ls.skip(1)),
        }
    }
}

/// `r` is what the links give: the error of the first bad link; else an
/// error for no links; else their teachers, in order.
pub open spec fn teachers_of_links(r: Result<Vec<Teacher>, ParseError>, ls: Seq<TeacherLinkText>) -> bool {
    match first_link_error(ls) {
        Some(e) => r == Err::<Vec<Teacher>, ParseError>(e),
        None => if ls.len() == 0 {
            r == Err::<Vec<Teacher>, ParseError>(ParseError::TeachersListEmpty)
        } else {
            r matches Ok(v) && v@.len() == ls.len() && forall|k: int|
                0 <= k < ls.len() ==> teacher_from_link(
                    Ok::<Teacher, ParseError>(#[trigger] v@[k]),
                    ls[k].href,
                    concat(ls[k].text),
                )
        },
    }
}

/// The `k`-th link of the page `source` that `link` finds.
pub open spec fn page_teacher_link(source: Seq<char>, link: Seq<char>, k: int) -> TeacherLinkText {
    TeacherLinkText {
        href: element_attribute(source, seq![(link, k)], "href"@),
        text: element_text_pieces(source, seq![(link, k)]),
    }
}

pub open spec fn page_teacher_links(source: Seq<char>, link: Seq<char>) -> Seq<TeacherLinkText> {
    Seq::new(document_selection_len(source, link), |k: int| page_teacher_link(source, link, k))
}

/// `r` is what the teachers page `source` gives.
pub open spec fn teachers_of_page(r: Result<Vec<Teacher>, ParseError>, source: Seq<char>) -> bool {
    if !css_selector_parses(".pt-2.pb-4 a"@) {
        r == Err::<Vec<Teacher>, ParseError>(ParseError::InvalidSelector)
    } else {
        teachers_of_links(r, page_teacher_links(source, ".pt-2.pb-4 a"@))
    }
}

/// A teacher from their link in the list: what the link rules give for the
/// link's `href` and whole text.
pub fn process_teacher(link: &TeacherLink) -> (r: Result<Teacher, ParseError>)
    ensures
        teacher_from_link(r, link_text(*link).href, concat(link_text(*link).text)),
{
    let text = element_text(&link.text);
    teacher_from_entry(link.href, text.as_str())
}

/// The teachers of the links, in order; the first bad link fails all, and
/// no links is an error.
pub fn teachers_from_links(links: &Vec<TeacherLink>) -> (r: Result<Vec<Teacher>, ParseError>)
    ensures
        teachers_of_links(r, link_texts(links@)),
{
    let ghost views = link_texts(links@);
    let mut teachers: Vec<Teacher> = Vec::new();
    let n = links.len();
    let mut i: usize = 0;
    assert(views.skip(0) =~= views);
    while i < n
        invariant
            i <= n,
            n == links@.len(),
            views == link_texts(links@),
            first_link_error(views) == first_link_error(views.skip(i as int)),
            teachers@.len() == i,
            forall|k: int|
                0 <= k < i ==> teacher_from_link(
                    Ok::<Teacher, ParseError>(#[trigger] teachers@[k]),
                    views[k].href,
                    concat(views[k].text),
                ),
        decreases n - i,
    {
        assert(views.skip(i as int)[0] == views[i as int]);
        assert(views.skip(i as int).skip(1) =~= views.skip(i + 1));
        let teacher = match process_teacher(&links[i]) {
            Ok(teacher) => teacher,
            Err(e) => return Err(e),
        };
        teachers.push(teacher);
        i = i + 1;
    }
    if teachers.len() == 0 {
        Err(ParseError::TeachersListEmpty)
    } else {
        Ok(teachers)
    }
}

/// The links of a teachers page that `link` finds.
pub fn read_teacher_links<'a>(page: &'a Page, link: &Pattern) -> (r: Vec<TeacherLink<'a>>)
    ensures
        link_texts(r@) == page_teacher_links(page@, link@),
{
    let found = select_document(page, link);
    let mut links: Vec<TeacherLink<'a>> = Vec::new();
    let n = found.len();
    let mut i: usize = 0;
    while i < n
        invariant
            i <= n,
            n == found@.len(),
            n == document_selection_len(page@, link@),
            forall|k: int| 0 <= k < n ==> #[trigger] found@[k]@ == (page@, seq![(link@, k)]),
            links@.len() == i,
            forall|k: int|
                0 <= k < i ==> #[trigger] link_text(links@[k]) == page_teacher_link(page@, link@, k),
        decreases n - i,
    {
        let href = attr(&found[i], "href");
        let text = text_pieces(&found[i]);
        let l = TeacherLink { href, text };
        assert(link_text(l).text =~= page_teacher_link(page@, link@, i as int).text);
        links.push(l);
        i = i + 1;
    }
    assert(link_texts(links@) =~= page_teacher_links(page@, link@));
    links
}

/// Every teacher of the list page, in page order; the first bad link fails
/// all, and an empty list is an error.
pub fn parse_teachers_page(html: &str) -> (r: Result<Vec<Teacher>, ParseError>)
    ensures
        teachers_of_page(r, html@),
{
    let page = read_page(html);
    let link = selector(".pt-2.pb-4 a")?;
    let links = read_teacher_links(&page, &link);
    teachers_from_links(&links)
}

/// The first present value, as `Iterator::find_map` picks it.
pub open spec fn first_some(values: Seq<Option<Seq<char>>>) -> Option<Seq<char>>
    decreases values.len(),
{
    if values.len() == 0 {
        None
    } else {
        match values[0] {
            Some(v) => Some(v),
            None => first_some(values.skip(1)),
        }
    }
}

pub open spec fn option_views(values: Seq<Option<&str>>) -> Seq<Option<Seq<char>>> {
    values.map_values(|v: Option<&str>| opt_view(v))
}

/// The search key from the `value`s of the `search_key` inputs, in page
/// order: the first that is present.
pub fn search_key_from_values(values: &Vec<Option<&str>>) -> (r: Result<String, ParseError>)
    ensures
        match first_some(option_views(values@)) {
            Some(v) => r matches Ok(k) && k@ == v,
            None => r == Err::<String, ParseError>(ParseError::SearchKeyNotFound),
        },
{
    let ghost views = option_views(values@);
    let n = values.len();
    let mut i: usize = 0;
    assert(views.skip(0) =~= views);
    while i < n
        invariant
            i <= n,
            n == values@.len(),
            views == option_views(values@),
            first_some(views) == first_some(views.skip(i as int)),
        decreases n - i,
    {
        assert(views.skip(i as int)[0] == views[i as int]);
        match values[i] {
            Some(value) => return Ok(String::from_str(value)),
            None => {},
        }
        assert(views.skip(i as int).skip(1) =~= views.skip(i + 1));
        i = i + 1;
    }
    Err(ParseError::SearchKeyNotFound)
}

/// The `value` of each input of the page `source` that `input` finds.
pub open spec fn page_input_values(source: Seq<char>, input: Seq<char>) -> Seq<Option<Seq<char>>> {
    Seq::new(
        document_selection_len(source, input),
        |k: int| element_attribute(source, seq![(input, k)], "value"@),
    )
}

/// The `value`s of the inputs of a page that `input` finds, in order.
pub fn read_input_values<'a>(page: &'a Page, input: &Pattern) -> (r: Vec<Option<&'a str>>)
    ensures
        option_views(r@) == page_input_values(page@, input@),
{
    let found = select_document(page, input);
    let mut values: Vec<Option<&'a str>> = Vec::new();
    let n = found.len();
    let mut i: usize = 0;
    while i < n
        invariant
            i <= n,
            n == found@.len(),
            n == document_selection_len(page@, input@),
            forall|k: int| 0 <= k < n ==> #[trigger] found@[k]@ == (page@, seq![(input@, k)]),
            values@.len() == i,
            forall|k: int|
                0 <= k < i ==> #[trigger] opt_view(values@[k]) == element_attribute(
                    page@,
                    seq![(input@, k)],
                    "value"@,
                ),
        decreases n - i,
    {
        values.push(attr(&found[i], "value"));
        i = i + 1;
    }
    assert(option_views(values@) =~= page_input_values(page@, input@));
    values
}

/// The `value` of the first `search_key` input that has one.
pub fn parse_search_key(html: &str) -> (r: Result<String, ParseError>)
    ensures
        !css_selector_parses("input[name=\"search_key\"]"@) ==> r == Err::<String, ParseError>(
            ParseError::InvalidSelector,
        ),
        css_selector_parses("input[name=\"search_key\"]"@) ==> match first_some(
            page_input_values(html@, "input[name=\"search_key\"]"@),
        ) {
            Some(v) => r matches Ok(k) && k@ == v,
            None => r == Err::<String, ParseError>(ParseError::SearchKeyNotFound),
        },
{
    let page = read_page(html);
    let input = selector("input[name=\"search_key\"]")?;
    let values = read_input_values(&page, &input);
    search_key_from_values(&values)
}

} // verus!
