//! The event-stream model of an XML document.
//!
//! The whole document is turned into a flat sequence of [`Event`]s once, by a
//! trusted wrapper around the `xml-rs` pull parser; everything downstream of
//! that sequence is verified.  `EvM` is the spec-level mirror of an event,
//! with every string taken to its view, so that models compare by content.

use vstd::prelude::*;

use xml::reader::XmlEvent as Xe;

use crate::error::{ErrKind, PRes, TiledError};

verus! {

/// One event of a parsed document, as the verified code sees it.
#[derive(Debug, Clone)]
pub enum Event {
    /// A start tag: local name and its attributes in document order.
    Start(String, Vec<(String, String)>),
    /// An end tag: local name.
    End(String),
    /// Character data.
    Text(String),
    /// Anything else (comments, whitespace, processing instructions, the
    /// document frame); the traversal ignores these.
    Other,
}

/// The spec-level mirror of an [`Event`].
pub enum EvM {
    Start(Seq<char>, Seq<(Seq<char>, Seq<char>)>),
    End(Seq<char>),
    Text(Seq<char>),
    Other,
}

pub open spec fn attrs_m(al: Seq<(String, String)>) -> Seq<(Seq<char>, Seq<char>)> {
    al.map_values(|p: (String, String)| (p.0@, p.1@))
}

pub open spec fn ev_m(e: Event) -> EvM {
    match e {
        Event::Start(n, al) => EvM::Start(n@, attrs_m(al@)),
        Event::End(n) => EvM::End(n@),
        Event::Text(t) => EvM::Text(t@),
        Event::Other => EvM::Other,
    }
}

pub open spec fn evs_m(s: Seq<Event>) -> Seq<EvM> {
    s.map_values(|e: Event| ev_m(e))
}

/// The event sequence a byte buffer parses to, or nothing when the markup is
/// not well-formed.  XML parsing is a function of the bytes alone.
pub uninterp spec fn xml_events_of(data: Seq<u8>) -> Option<Seq<EvM>>;

/// Relies on `xml::reader::EventReader` (crate `xml-rs`): pulls every event
/// of the document in order.  Start/end tags, character data and CDATA keep
/// their content; all other events carry nothing the decoder reads.  A
/// malformed document yields the parser's error message.
#[verifier::external_body]
pub(crate) fn read_events(data: &[u8]) -> (r: Result<Vec<Event>, String>)
    ensures
        match r {
            Ok(v) => xml_events_of(data@) == Some(evs_m(v@)),
            Err(_) => xml_events_of(data@) is None,
        },
{
    let mut out = Vec::new();
    for ev in xml::reader::EventReader::new(data) {
        match ev {
            Ok(Xe::StartElement { name, attributes, .. }) => out.push(Event::Start(
                name.local_name,
                attributes.into_iter().map(|a| (a.name.local_name, a.value)).collect(),
            )),
            Ok(Xe::EndElement { name }) => out.push(Event::End(name.local_name)),
            Ok(Xe::Characters(t)) | Ok(Xe::CData(t)) => out.push(Event::Text(t)),
            Ok(_) => out.push(Event::Other),
            Err(e) => return Err(e.to_string()),
        }
    }
    Ok(out)
}

// ---------------------------------------------------------------------------
// Depth-balanced subtree skipping
// ---------------------------------------------------------------------------

/// Position just past the end tag that closes `depth` levels, starting at
/// `i`; `None` when the events run out first.
pub open spec fn s_skip(evs: Seq<EvM>, i: int, depth: int) -> Option<int>
    decreases evs.len() - i,
{
    if i < 0 || i >= evs.len() {
        None
    } else {
        match evs[i] {
            EvM::Start(_, _) => s_skip(evs, i + 1, depth + 1),
            EvM::End(_) => if depth <= 1 {
                Some(i + 1)
            } else {
                s_skip(evs, i + 1, depth - 1)
            },
            _ => s_skip(evs, i + 1, depth),
        }
    }
}

/// Skips one subtree: `start` is the position just after its start tag.
pub(crate) fn skip_subtree(evs: &Vec<Event>, start: usize) -> (r: Option<usize>)
    requires
        start <= evs@.len(),
    ensures
        match r {
            Some(j) => start < j <= evs@.len() && s_skip(evs_m(evs@), start as int, 1) == Some(
                j as int,
            ),
            None => s_skip(evs_m(evs@), start as int, 1) is None,
        },
{
    let mut i: usize = start;
    let mut depth: u128 = 1;
    loop
        invariant
            start <= i <= evs@.len(),
            1 <= depth <= 1 + i - start,
            s_skip(evs_m(evs@), start as int, 1) == s_skip(evs_m(evs@), i as int, depth as int),
        decreases evs@.len() - i,
    {
        if i == evs.len() {
            return None;
        }
        let ev = &evs[i];
        proof {
            assert(evs_m(evs@)[i as int] == ev_m(evs@[i as int]));
        }
        match ev {
            Event::Start(_, _) => {
                depth = depth + 1;
            },
            Event::End(_) => {
                if depth == 1 {
                    return Some(i + 1);
                }
                depth = depth - 1;
            },
            _ => {},
        }
        i = i + 1;
    }
}

// ---------------------------------------------------------------------------
// Attribute lookup
// ---------------------------------------------------------------------------

/// The value of the first attribute named `key`.
pub open spec fn s_find_attr(al: Seq<(Seq<char>, Seq<char>)>, key: Seq<char>) -> Option<Seq<char>>
    decreases al.len(),
{
    if al.len() == 0 {
        None
    } else if al[0].0 == key {
        Some(al[0].1)
    } else {
        s_find_attr(al.drop_first(), key)
    }
}

fn get_attr_from(al: &Vec<(String, String)>, i: usize, key: &str) -> (r: Option<String>)
    requires
        i <= al@.len(),
    ensures
        match r {
            Some(v) => s_find_attr(attrs_m(al@).skip(i as int), key@) == Some(v@),
            None => s_find_attr(attrs_m(al@).skip(i as int), key@) is None,
        },
    decreases al@.len() - i,
{
    if i == al.len() {
        proof {
            assert(attrs_m(al@).skip(i as int) =~= Seq::<(Seq<char>, Seq<char>)>::empty());
        }
        None
    } else {
        let p = &al[i];
        proof {
            assert(attrs_m(al@)[i as int] == (al@[i as int].0@, al@[i as int].1@));
            assert(attrs_m(al@).skip(i as int)[0] == attrs_m(al@)[i as int]);
            assert(attrs_m(al@).skip(i as int).drop_first() =~= attrs_m(al@).skip(i as int + 1));
        }
        if crate::strutil::str_eq(p.0.as_str(), key) {
            Some(p.1.clone())
        } else {
            get_attr_from(al, i + 1, key)
        }
    }
}

/// Looks an attribute up by name; first occurrence wins.
pub fn get_attr(al: &Vec<(String, String)>, key: &str) -> (r: Option<String>)
    ensures
        match r {
            Some(v) => s_find_attr(attrs_m(al@), key@) == Some(v@),
            None => s_find_attr(attrs_m(al@), key@) is None,
        },
{
    proof {
        assert(attrs_m(al@).skip(0) =~= attrs_m(al@));
    }
    get_attr_from(al, 0, key)
}

// Typed extraction, with the absence semantics of the decoder: a required
// attribute that is missing or uncoercible is an error reported by the
// caller; an optional attribute that is present but uncoercible counts as
// absent, and the default applies.

pub open spec fn s_req_u32(al: Seq<(Seq<char>, Seq<char>)>, key: Seq<char>) -> Option<u32> {
    match s_find_attr(al, key) {
        None => None,
        Some(v) => crate::strutil::s_parse_u32(v),
    }
}

pub fn get_u32_attr(al: &Vec<(String, String)>, key: &str) -> (r: Option<u32>)
    ensures
        r == s_req_u32(attrs_m(al@), key@),
{
    match get_attr(al, key) {
        None => None,
        Some(v) => crate::strutil::parse_u32_str(v.as_str()),
    }
}

pub open spec fn s_req_i32(al: Seq<(Seq<char>, Seq<char>)>, key: Seq<char>) -> Option<i32> {
    match s_find_attr(al, key) {
        None => None,
        Some(v) => crate::strutil::s_parse_i32(v),
    }
}

pub fn get_i32_attr(al: &Vec<(String, String)>, key: &str) -> (r: Option<i32>)
    ensures
        r == s_req_i32(attrs_m(al@), key@),
{
    match get_attr(al, key) {
        None => None,
        Some(v) => crate::strutil::parse_i32_str(v.as_str()),
    }
}

pub open spec fn s_opt_u32_or(al: Seq<(Seq<char>, Seq<char>)>, key: Seq<char>, d: u32) -> u32 {
    match s_find_attr(al, key) {
        None => d,
        Some(v) => match crate::strutil::s_parse_u32(v) {
            None => d,
            Some(x) => x,
        },
    }
}

pub fn opt_u32_attr(al: &Vec<(String, String)>, key: &str, d: u32) -> (r: u32)
    ensures
        r == s_opt_u32_or(attrs_m(al@), key@, d),
{
    match get_attr(al, key) {
        None => d,
        Some(v) => match crate::strutil::parse_u32_str(v.as_str()) {
            None => d,
            Some(x) => x,
        },
    }
}

pub open spec fn s_opt_i32_or(al: Seq<(Seq<char>, Seq<char>)>, key: Seq<char>, d: i32) -> i32 {
    match s_find_attr(al, key) {
        None => d,
        Some(v) => match crate::strutil::s_parse_i32(v) {
            None => d,
            Some(x) => x,
        },
    }
}

pub fn opt_i32_attr(al: &Vec<(String, String)>, key: &str, d: i32) -> (r: i32)
    ensures
        r == s_opt_i32_or(attrs_m(al@), key@, d),
{
    match get_attr(al, key) {
        None => d,
        Some(v) => match crate::strutil::parse_i32_str(v.as_str()) {
            None => d,
            Some(x) => x,
        },
    }
}

pub open spec fn s_opt_bool_or(al: Seq<(Seq<char>, Seq<char>)>, key: Seq<char>, d: bool) -> bool {
    match s_find_attr(al, key) {
        None => d,
        Some(v) => match crate::strutil::s_parse_bool(v) {
            None => d,
            Some(x) => x,
        },
    }
}

pub fn opt_bool_attr(al: &Vec<(String, String)>, key: &str, d: bool) -> (r: bool)
    ensures
        r == s_opt_bool_or(attrs_m(al@), key@, d),
{
    match get_attr(al, key) {
        None => d,
        Some(v) => match crate::strutil::parse_bool_str(v.as_str()) {
            None => d,
            Some(x) => x,
        },
    }
}

pub open spec fn s_opt_str_or(
    al: Seq<(Seq<char>, Seq<char>)>,
    key: Seq<char>,
    d: Seq<char>,
) -> Seq<char> {
    match s_find_attr(al, key) {
        None => d,
        Some(v) => v,
    }
}

pub fn opt_str_attr(al: &Vec<(String, String)>, key: &str, d: &str) -> (r: String)
    ensures
        r@ == s_opt_str_or(attrs_m(al@), key@, d@),
{
    match get_attr(al, key) {
        None => d.to_owned(),
        Some(v) => v,
    }
}

pub open spec fn s_opt_colour(
    al: Seq<(Seq<char>, Seq<char>)>,
    key: Seq<char>,
) -> Option<crate::Colour> {
    match s_find_attr(al, key) {
        None => None,
        Some(v) => crate::s_colour(v),
    }
}

pub fn opt_colour_attr(al: &Vec<(String, String)>, key: &str) -> (r: Option<crate::Colour>)
    ensures
        r == s_opt_colour(attrs_m(al@), key@),
{
    match get_attr(al, key) {
        None => None,
        Some(v) => match crate::Colour::from_str(v.as_str()) {
            Ok(c) => Some(c),
            Err(_) => None,
        },
    }
}

// ---------------------------------------------------------------------------
// Text content of an element
// ---------------------------------------------------------------------------

/// Concatenated character data up to the element's end tag, with nested
/// elements skipped whole.
pub open spec fn s_text_go(evs: Seq<EvM>, i: int, acc: Seq<char>) -> PRes<(Seq<char>, int)>
    decreases evs.len() - i,
{
    if i < 0 || i >= evs.len() {
        PRes::Fail(ErrKind::PrematureEnd)
    } else {
        match evs[i] {
            EvM::Text(t) => s_text_go(evs, i + 1, acc + t),
            EvM::End(_) => PRes::Val((acc, i + 1)),
            EvM::Start(_, _) => match s_skip(evs, i + 1, 1) {
                None => PRes::Fail(ErrKind::PrematureEnd),
                Some(j) => if i < j && j <= evs.len() {
                    s_text_go(evs, j, acc)
                } else {
                    PRes::Fail(ErrKind::PrematureEnd)
                },
            },
            EvM::Other => s_text_go(evs, i + 1, acc),
        }
    }
}

/// Collects an element's text content; `start` is the position just after
/// its start tag.
pub(crate) fn collect_text(evs: &Vec<Event>, start: usize) -> (r: Result<(String, usize), TiledError>)
    requires
        start <= evs@.len(),
    ensures
        match r {
            Ok(p) => start < p.1 <= evs@.len() && s_text_go(evs_m(evs@), start as int, Seq::empty())
                == PRes::Val((p.0@, p.1 as int)),
            Err(e) => s_text_go(evs_m(evs@), start as int, Seq::empty()) == PRes::<(Seq<char>, int)>::Fail(e.kind()),
        },
{
    let mut i: usize = start;
    let mut acc: String = String::new();
    loop
        invariant
            start <= i <= evs@.len(),
            s_text_go(evs_m(evs@), start as int, Seq::empty()) == s_text_go(
                evs_m(evs@),
                i as int,
                acc@,
            ),
        decreases evs@.len() - i,
    {
        if i == evs.len() {
            return Err(TiledError::PrematureEnd("element ended before its close tag".to_owned()));
        }
        let ev = &evs[i];
        proof {
            assert(evs_m(evs@)[i as int] == ev_m(evs@[i as int]));
        }
        match ev {
            Event::Text(t) => {
                vstd::string::StringExecFns::append(&mut acc, t.as_str());
                i = i + 1;
            },
            Event::End(_) => {
                return Ok((acc, i + 1));
            },
            Event::Start(_, _) => {
                match skip_subtree(evs, i + 1) {
                    None => {
                        return Err(
                            TiledError::PrematureEnd(
                                "element ended before its close tag".to_owned(),
                            ),
                        );
                    },
                    Some(j) => {
                        i = j;
                    },
                }
            },
            Event::Other => {
                i = i + 1;
            },
        }
    }
}

} // verus!
