//! The page that lists the student groups.
use vstd::prelude::*;

use crate::structures::Group;
use crate::text::{concat, parse_i32, str_parse_i32, trim, trim_str};
use super::html::{
    attr, css_selector_parses, document_selection_len, element_attribute, element_selection_len,
    element_text_pieces, read_page, select_document, select_within, text_pieces, Page, Pattern,
};
use super::{element_text, href_id_piece, href_id_str, opt_view, piece_views, selector, ParseError};

verus! {

/// The group that a list entry describes, from the link of the entry and its
/// text: the id is the next-to-last piece of the link, the number is the text.
pub open spec fn group_from_text(href: Seq<char>, text: Seq<char>) -> Result<Group, ParseError> {
    match href_id_piece(href) {
        None => Err(ParseError::InvalidHrefFormat),
        Some(piece) => match parse_i32(trim(piece)) {
            None => Err(ParseError::IdNotANumber),
            Some(id) => match parse_i32(trim(text)) {
                None => Err(ParseError::GroupNumberNotANumber),
                Some(number) => Ok(Group { number, id }),
            },
        },
    }
}

/// A group from the link and the text of its list entry.
pub fn group_from_parts(href: &str, text: &str) -> (r: Result<Group, ParseError>)
    ensures
        r == group_from_text(href@, text@),
{
    let piece = match href_id_str(href) {
        Some(piece) => piece,
        None => return Err(ParseError::InvalidHrefFormat),
    };
    let id = match str_parse_i32(trim_str(piece)) {
        Some(id) => id,
        None => return Err(ParseError::IdNotANumber),
    };
    let number = match str_parse_i32(trim_str(text)) {
        Some(number) => number,
        None => return Err(ParseError::GroupNumberNotANumber),
    };
    Ok(Group { number, id })
}

/// What a list entry gives: `link` is `None` where the entry has no link,
/// `Some(None)` where its first link has no `href`.
pub open spec fn group_from_link(link: Option<Option<Seq<char>>>, text: Seq<char>) -> Result<
    Group,
    ParseError,
> {
    match link {
        None => Err(ParseError::GroupHasNoLink),
        Some(None) => Err(ParseError::GroupHasNoHref),
        Some(Some(href)) => group_from_text(href, text),
    }
}

pub open spec fn link_view(link: Option<Option<&str>>) -> Option<Option<Seq<char>>> {
    match link {
        None => None,
        Some(None) => Some(None),
        Some(Some(h)) => Some(Some(h@)),
    }
}

/// A group from what its list entry holds.
pub fn group_from_entry(link: Option<Option<&str>>, text: &str) -> (r: Result<Group, ParseError>)
    ensures
        r == group_from_link(link_view(link), text@),
{
    match link {
        None => Err(ParseError::GroupHasNoLink),
        Some(None) => Err(ParseError::GroupHasNoHref),
        Some(Some(href)) => group_from_parts(href, text),
    }
}

/// What the groups page holds for one group: the `href` of each link in the
/// entry, in order, and the entry's text nodes.
pub struct GroupEntry<'a> {
    pub hrefs: Vec<Option<&'a str>>,
    pub text: Vec<&'a str>,
}

/// The plain content of a group entry.
pub struct GroupEntryText {
    pub hrefs: Seq<Option<Seq<char>>>,
    pub text: Seq<Seq<char>>,
}

pub open spec fn entry_text(e: GroupEntry) -> GroupEntryText {
    GroupEntryText { hrefs: e.hrefs@.map_values(|h: Option<&str>| opt_view(h)), text: piece_views(e.text@) }
}

pub open spec fn entry_texts(es: Seq<GroupEntry>) -> Seq<GroupEntryText> {
    es.map_values(|e: GroupEntry| entry_text(e))
}

/// The group of an entry: its first link's `href` and its whole text.
pub open spec fn group_of_entry(e: GroupEntryText) -> Result<Group, ParseError> {
    group_from_link(
        if e.hrefs.len() == 0 {
            None
        } else {
            Some(e.hrefs[0])
        },
        concat(e.text),
    )
}

/// The groups of the entries in order, or the error of the first bad entry.
pub open spec fn groups_of_entries(es: Seq<GroupEntryText>) -> Result<Seq<Group>, ParseError>
    decreases es.len(),
{
    if es.len() == 0 {
        Ok(Seq::empty())
    } else {
        match group_of_entry(es[0]) {
            Err(e) => Err(e),
            Ok(g) => match groups_of_entries(es.skip(1)) {
                Err(e) => Err(e),
                Ok(gs) => Ok(seq![g] + gs),
            },
        }
    }
}

pub open spec fn groups_view(r: Result<Vec<Group>, ParseError>) -> Result<Seq<Group>, ParseError> {
    match r {
        Ok(v) => Ok(v@),
        Err(e) => Err(e),
    }
}

/// The `k`-th entry of the page `source`, found by `entry` with its links
/// found by `link`.
pub open spec fn page_group_entry(source: Seq<char>, entry: Seq<char>, link: Seq<char>, k: int) -> GroupEntryText {
    let at = seq![(entry, k)];
    GroupEntryText {
        hrefs: Seq::new(
            element_selection_len(source, at, link),
            |j: int| element_attribute(source, at.push((link, j)), "href"@),
        ),
        text: element_text_pieces(source, at),
    }
}

pub open spec fn page_group_entries(source: Seq<char>, entry: Seq<char>, link: Seq<char>) -> Seq<GroupEntryText> {
    Seq::new(document_selection_len(source, entry), |k: int| page_group_entry(source, entry, link, k))
}

/// What the groups page `source` gives: an error where a selector does not
/// parse, else the groups of its `.gr` entries.
pub open spec fn groups_of_page(source: Seq<char>) -> Result<Seq<Group>, ParseError> {
    if !(css_selector_parses(".gr"@) && css_selector_parses("a"@)) {
        Err(ParseError::InvalidSelector)
    } else {
        groups_of_entries(page_group_entries(source, ".gr"@, "a"@))
    }
}

/// A group from its entry in the list: the first link's `href` and the text.
pub fn process_group(entry: &GroupEntry) -> (r: Result<Group, ParseError>)
    ensures
        r == group_of_entry(entry_text(*entry)),
{
    let link = if entry.hrefs.len() == 0 {
        None
    } else {
        Some(entry.hrefs[0])
    };
    let text = element_text(&entry.text);
    group_from_entry(link, text.as_str())
}

/// The groups of the entries, in order; the first bad entry fails all.
pub fn groups_from_entries(entries: &Vec<GroupEntry>) -> (r: Result<Vec<Group>, ParseError>)
    ensures
        groups_view(r) == groups_of_entries(entry_texts(entries@)),
{
    let ghost views = entry_texts(entries@);
    let mut groups: Vec<Group> = Vec::new();
    let n = entries.len();
    let mut i: usize = 0;
    assert(views.skip(0) =~= views);
    while i < n
        invariant
            i <= n,
            n == entries@.len(),
            views == entry_texts(entries@),
            groups_of_entries(views) == match groups_of_entries(views.skip(i as int)) {
                Err(e) => Err(e),
                Ok(rest) => Ok::<Seq<Group>, ParseError>(groups@ + rest),
            },
        decreases n - i,
    {
        assert(views.skip(i as int)[0] == views[i as int]);
        assert(views.skip(i as int).skip(1) =~= views.skip(i + 1));
        let group = match process_group(&entries[i]) {
            Ok(group) => group,
            Err(e) => return Err(e),
        };
        let ghost before = groups@;
        groups.push(group);
        assert forall|rest: Seq<Group>| before + (seq![group] + rest) =~= groups@ + rest by {}
        i = i + 1;
    }
    assert(groups@ + Seq::<Group>::empty() =~= groups@);
    Ok(groups)
}

/// The entries of a groups page, read with the entry and link selectors.
pub fn read_group_entries<'a>(page: &'a Page, entry: &Pattern, link: &Pattern) -> (r: Vec<GroupEntry<'a>>)
    ensures
        entry_texts(r@) == page_group_entries(page@, entry@, link@),
{
    let found = select_document(page, entry);
    let mut entries: Vec<GroupEntry<'a>> = Vec::new();
    let n = found.len();
    let mut i: usize = 0;
    while i < n
        invariant
            i <= n,
            n == found@.len(),
            n == document_selection_len(page@, entry@),
            forall|k: int| 0 <= k < n ==> #[trigger] found@[k]@ == (page@, seq![(entry@, k)]),
            entries@.len() == i,
            forall|k: int|
                0 <= k < i ==> #[trigger] entry_text(entries@[k]) == page_group_entry(page@, entry@, link@, k),
        decreases n - i,
    {
        let at = &found[i];
        let links = select_within(at, link);
        let mut hrefs: Vec<Option<&'a str>> = Vec::new();
        let m = links.len();
        let mut j: usize = 0;
        while j < m
            invariant
                j <= m,
                m == links@.len(),
                hrefs@.len() == j,
                forall|k: int|
                    0 <= k < m ==> #[trigger] links@[k]@ == (at@.0, at@.1.push((link@, k))),
                forall|k: int|
                    0 <= k < j ==> #[trigger] opt_view(hrefs@[k]) == element_attribute(
                        at@.0,
                        at@.1.push((link@, k)),
                        "href"@,
                    ),
            decreases m - j,
        {
            hrefs.push(attr(&links[j], "href"));
            j = j + 1;
        }
        let text = text_pieces(at);
        let ghost expected = page_group_entry(page@, entry@, link@, i as int);
        let e = GroupEntry { hrefs, text };
        assert(entry_text(e).hrefs =~= expected.hrefs);
        assert(entry_text(e).text =~= expected.text);
        entries.push(e);
        i = i + 1;
    }
    assert(entry_texts(entries@) =~= page_group_entries(page@, entry@, link@));
    entries
}

/// Every group of the list page, in page order; the first bad entry fails all.
pub fn parse_groups_page(html: &str) -> (r: Result<Vec<Group>, ParseError>)
    ensures
        groups_view(r) == groups_of_page(html@),
{
    let page = read_page(html);
    let entry = selector(".gr")?;
    let link = selector("a")?;
    let entries = read_group_entries(&page, &entry, &link);
    groups_from_entries(&entries)
}

} // verus!
