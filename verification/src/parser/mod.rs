//! Reading the university's pages: the list of groups, the list of teachers
//! and one schedule page.
pub mod groups;
pub mod html;
pub mod schedule;
pub mod teachers;

use vstd::prelude::*;

use crate::text::{append_all, concat, split, split_str};
use self::html::{css_selector_parses, parse_selector, Pattern};

verus! {

/// What is wrong with a page.
#[derive(Clone, Copy, Debug, PartialEq, Eq, Structural)]
pub enum ParseError {
    InvalidSelector,
    GroupHasNoLink,
    GroupHasNoHref,
    InvalidHrefFormat,
    IdNotANumber,
    GroupNumberNotANumber,
    TeacherHasNoHref,
    IsuIdNotANumber,
    TeachersListEmpty,
    SearchKeyNotFound,
    DayHasNoHeader,
    UnknownDayName,
    DayHasNoTableBody,
    ClassHasNoTimeCell,
    ClassHasNoWeekTypeCell,
    ClassHasNoRoomCell,
    ClassHasNoGroupCell,
    ClassHasNoSubjectCell,
    ClassHasNoTeacherCell,
    ClassHasNoWeekTypeTitle,
    UnknownWeekType,
}

/// The next-to-last `/`-separated piece of a link, where the id sits in
/// `.../<id>/`: `split('/').nth_back(1)`.
pub open spec fn href_id_piece(href: Seq<char>) -> Option<Seq<char>> {
    let parts = split(href, '/');
    if parts.len() >= 2 {
        Some(parts[parts.len() - 2])
    } else {
        None
    }
}

pub fn href_id_str(href: &str) -> (r: Option<&str>)
    ensures
        r matches Some(p) ==> href_id_piece(href@) == Some(p@),
        r is None ==> href_id_piece(href@) is None,
{
    let parts = split_str(href, '/');
    if parts.len() >= 2 {
        Some(parts[parts.len() - 2])
    } else {
        None
    }
}

pub open spec fn piece_views(pieces: Seq<&str>) -> Seq<Seq<char>> {
    pieces.map_values(|p: &str| p@)
}

pub open spec fn opt_view(o: Option<&str>) -> Option<Seq<char>> {
    match o {
        Some(s) => Some(s@),
        None => None,
    }
}

/// The text of an element from its text nodes: their concatenation.
pub fn element_text(pieces: &Vec<&str>) -> (r: String)
    ensures
        r@ == concat(piece_views(pieces@)),
{
    let mut r = String::new();
    append_all(&mut r, pieces);
    r
}

/// A selector for a fixed pattern of the pages; it fails exactly where the
/// pattern is not a selector.
pub fn selector(pattern: &str) -> (r: Result<Pattern, ParseError>)
    ensures
        r is Ok <==> css_selector_parses(pattern@),
        r matches Ok(p) ==> p@ == pattern@,
        r matches Err(e) ==> e == ParseError::InvalidSelector,
{
    match parse_selector(pattern) {
        Some(s) => Ok(s),
        None => Err(ParseError::InvalidSelector),
    }
}

} // verus!
