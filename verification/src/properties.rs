//! Typed custom properties: a name-keyed mapping where a repeated name keeps
//! only its last value, and the `<properties>` block parser.

use vstd::prelude::*;

use crate::error::{ErrKind, PRes, TiledError};
use crate::events::{
    attrs_m, collect_text, ev_m, evs_m, get_attr, skip_subtree, s_find_attr, s_skip, s_text_go,
    Event, EvM,
};
use crate::strutil::{
    check_float_text, parse_bool_str, parse_i32_str, s_float_text, s_parse_bool, s_parse_i32,
    str_eq,
};
use crate::{s_colour, Colour};

verus! {

/// The value of one custom property.
#[derive(Debug, Clone, PartialEq)]
pub enum PropertyValue {
    BoolValue(bool),
    /// The verbatim text of a floating-point property.  The decoder checks
    /// its shape and keeps it as written; turning it into a machine float is
    /// the caller's concern.
    FloatValue(String),
    IntValue(i32),
    ColourValue(Colour),
    StringValue(String),
    FileValue(String),
}

/// The spec-level mirror of a [`PropertyValue`].
pub enum PVm {
    BoolV(bool),
    FloatV(Seq<char>),
    IntV(i32),
    ColourV(Colour),
    StrV(Seq<char>),
    FileV(Seq<char>),
}

pub open spec fn pv_m(v: PropertyValue) -> PVm {
    match v {
        PropertyValue::BoolValue(b) => PVm::BoolV(b),
        PropertyValue::FloatValue(t) => PVm::FloatV(t@),
        PropertyValue::IntValue(x) => PVm::IntV(x),
        PropertyValue::ColourValue(c) => PVm::ColourV(c),
        PropertyValue::StringValue(t) => PVm::StrV(t@),
        PropertyValue::FileValue(t) => PVm::FileV(t@),
    }
}

/// A property block: entries in document order; viewed as a map where the
/// last occurrence of a name wins.
#[derive(Debug, Clone, PartialEq)]
pub struct Properties {
    pub entries: Vec<(String, PropertyValue)>,
}

pub open spec fn entries_m(l: Seq<(String, PropertyValue)>) -> Seq<(Seq<char>, PVm)> {
    l.map_values(|p: (String, PropertyValue)| (p.0@, pv_m(p.1)))
}

/// Folds entries into a map, later entries overwriting earlier ones.
pub open spec fn props_map(e: Seq<(Seq<char>, PVm)>) -> Map<Seq<char>, PVm>
    decreases e.len(),
{
    if e.len() == 0 {
        Map::empty()
    } else {
        props_map(e.drop_last()).insert(e.last().0, e.last().1)
    }
}

impl View for Properties {
    type V = Map<Seq<char>, PVm>;

    open spec fn view(&self) -> Map<Seq<char>, PVm> {
        props_map(entries_m(self.entries@))
    }
}

/// Within one block, a property name repeated twice retains only the value
/// of its last occurrence: if `e[j]` is the last entry named `k`, the folded
/// map carries exactly its value.
pub proof fn lemma_last_occurrence_wins(e: Seq<(Seq<char>, PVm)>, k: Seq<char>, j: int)
    requires
        0 <= j < e.len(),
        e[j].0 == k,
        forall|l: int| j < l < e.len() ==> e[l].0 != k,
    ensures
        props_map(e).contains_key(k),
        props_map(e)[k] == e[j].1,
    decreases e.len(),
{
    if j == e.len() - 1 {
    } else {
        lemma_last_occurrence_wins(e.drop_last(), k, j);
    }
}

/// A name that labels no entry is not in the folded map.
pub proof fn lemma_absent_name(e: Seq<(Seq<char>, PVm)>, k: Seq<char>)
    requires
        forall|l: int| 0 <= l < e.len() ==> e[l].0 != k,
    ensures
        !props_map(e).contains_key(k),
    decreases e.len(),
{
    if e.len() > 0 {
        lemma_absent_name(e.drop_last(), k);
    }
}

impl Properties {
    /// The entries in document order, at spec level.
    pub open spec fn entry_seq(&self) -> Seq<(Seq<char>, PVm)> {
        entries_m(self.entries@)
    }

    pub fn new() -> (r: Properties)
        ensures
            r@ == Map::<Seq<char>, PVm>::empty(),
            r.entry_seq() == Seq::<(Seq<char>, PVm)>::empty(),
    {
        let r = Properties { entries: Vec::new() };
        proof {
            assert(r.entry_seq() =~= Seq::<(Seq<char>, PVm)>::empty());
        }
        r
    }

    /// The value of the property named `name`: the last occurrence wins.
    pub fn get(&self, name: &str) -> (r: Option<&PropertyValue>)
        ensures
            match r {
                Some(v) => self@.contains_key(name@) && pv_m(*v) == self@[name@],
                None => !self@.contains_key(name@),
            },
    {
        let n: usize = self.entries.len();
        let mut j: usize = n;
        while j > 0
            invariant
                n == self.entries@.len(),
                0 <= j <= n,
                forall|l: int| j <= l < n ==> #[trigger] self.entry_seq()[l].0 != name@,
            decreases j,
        {
            let p = &self.entries[j - 1];
            proof {
                assert(self.entry_seq()[j - 1] == (self.entries@[j - 1].0@, pv_m(
                    self.entries@[j - 1].1,
                )));
            }
            if str_eq(p.0.as_str(), name) {
                proof {
                    lemma_last_occurrence_wins(self.entry_seq(), name@, j - 1);
                }
                return Some(&p.1);
            }
            j = j - 1;
        }
        proof {
            lemma_absent_name(self.entry_seq(), name@);
        }
        None
    }
}

// ---------------------------------------------------------------------------
// Coercion by the `type` attribute
// ---------------------------------------------------------------------------

/// The typed value a property text coerces to; `type` defaults to string
/// when absent, and an unrecognised or uncoercible type fails the parse.
pub open spec fn s_coerce_pv(ty: Option<Seq<char>>, value: Seq<char>) -> Option<PVm> {
    match ty {
        None => Some(PVm::StrV(value)),
        Some(t) => if t == "string"@ {
            Some(PVm::StrV(value))
        } else if t == "int"@ {
            match s_parse_i32(value) {
                Some(v) => Some(PVm::IntV(v)),
                None => None,
            }
        } else if t == "float"@ {
            if s_float_text(value) {
                Some(PVm::FloatV(value))
            } else {
                None
            }
        } else if t == "bool"@ {
            match s_parse_bool(value) {
                Some(b) => Some(PVm::BoolV(b)),
                None => None,
            }
        } else if t == "color"@ {
            match s_colour(value) {
                Some(c) => Some(PVm::ColourV(c)),
                None => None,
            }
        } else if t == "file"@ {
            Some(PVm::FileV(value))
        } else {
            None
        },
    }
}

pub open spec fn opt_str_m(ty: Option<String>) -> Option<Seq<char>> {
    match ty {
        None => None,
        Some(t) => Some(t@),
    }
}

fn coerce_pv(ty: &Option<String>, value: String) -> (r: Option<PropertyValue>)
    ensures
        match r {
            Some(pv) => s_coerce_pv(opt_str_m(*ty), value@) == Some(pv_m(pv)),
            None => s_coerce_pv(opt_str_m(*ty), value@) is None,
        },
{
    match ty {
        None => Some(PropertyValue::StringValue(value)),
        Some(t) => {
            if str_eq(t.as_str(), "string") {
                Some(PropertyValue::StringValue(value))
            } else if str_eq(t.as_str(), "int") {
                match parse_i32_str(value.as_str()) {
                    Some(v) => Some(PropertyValue::IntValue(v)),
                    None => None,
                }
            } else if str_eq(t.as_str(), "float") {
                if check_float_text(value.as_str()) {
                    Some(PropertyValue::FloatValue(value))
                } else {
                    None
                }
            } else if str_eq(t.as_str(), "bool") {
                match parse_bool_str(value.as_str()) {
                    Some(b) => Some(PropertyValue::BoolValue(b)),
                    None => None,
                }
            } else if str_eq(t.as_str(), "color") {
                match Colour::from_str(value.as_str()) {
                    Ok(c) => Some(PropertyValue::ColourValue(c)),
                    Err(_) => None,
                }
            } else if str_eq(t.as_str(), "file") {
                Some(PropertyValue::FileValue(value))
            } else {
                None
            }
        },
    }
}

// ---------------------------------------------------------------------------
// The `<property>` element and the `<properties>` block
// ---------------------------------------------------------------------------

/// One `<property>` element: `name` is required, `type` optional, and the
/// value is the `value` attribute or, failing that, the element's text.
pub open spec fn s_property(
    evs: Seq<EvM>,
    i: int,
    al: Seq<(Seq<char>, Seq<char>)>,
) -> PRes<((Seq<char>, PVm), int)> {
    match s_find_attr(al, "name"@) {
        None => PRes::Fail(ErrKind::MalformedAttributes),
        Some(name) => {
            let ty = s_find_attr(al, "type"@);
            match s_find_attr(al, "value"@) {
                Some(v) => match s_coerce_pv(ty, v) {
                    None => PRes::Fail(ErrKind::MalformedAttributes),
                    Some(pv) => match s_skip(evs, i, 1) {
                        None => PRes::Fail(ErrKind::PrematureEnd),
                        Some(j) => PRes::Val(((name, pv), j)),
                    },
                },
                None => match s_text_go(evs, i, Seq::empty()) {
                    PRes::Fail(k) => PRes::Fail(k),
                    PRes::Val(p) => match s_coerce_pv(ty, p.0) {
                        None => PRes::Fail(ErrKind::MalformedAttributes),
                        Some(pv) => PRes::Val(((name, pv), p.1)),
                    },
                },
            }
        },
    }
}

fn parse_property(evs: &Vec<Event>, start: usize, al: &Vec<(String, String)>) -> (r: Result<
    ((String, PropertyValue), usize),
    TiledError,
>)
    requires
        start <= evs@.len(),
    ensures
        match r {
            Ok(p) => start < p.1 <= evs@.len() && s_property(evs_m(evs@), start as int, attrs_m(al@))
                == PRes::Val(((p.0.0@, pv_m(p.0.1)), p.1 as int)),
            Err(e) => s_property(evs_m(evs@), start as int, attrs_m(al@)) == PRes::<(
                (Seq<char>, PVm),
                int,
            )>::Fail(e.kind()),
        },
{
    let name: String = match get_attr(al, "name") {
        None => {
            return Err(TiledError::MalformedAttributes("property must have a name".to_owned()));
        },
        Some(v) => v,
    };
    let ty: Option<String> = get_attr(al, "type");
    match get_attr(al, "value") {
        Some(v) => {
            let pv: PropertyValue = match coerce_pv(&ty, v) {
                None => {
                    return Err(
                        TiledError::MalformedAttributes(
                            "property value does not fit its type".to_owned(),
                        ),
                    );
                },
                Some(pv) => pv,
            };
            match skip_subtree(evs, start) {
                None => Err(
                    TiledError::PrematureEnd("property element is not closed".to_owned()),
                ),
                Some(j) => Ok(((name, pv), j)),
            }
        },
        None => {
            let (txt, j) = match collect_text(evs, start) {
                Err(e) => {
                    return Err(e);
                },
                Ok(p) => p,
            };
            match coerce_pv(&ty, txt) {
                None => Err(
                    TiledError::MalformedAttributes(
                        "property value does not fit its type".to_owned(),
                    ),
                ),
                Some(pv) => Ok(((name, pv), j)),
            }
        },
    }
}

/// The children of a `<properties>` block, in document order.
pub open spec fn s_props_go(
    evs: Seq<EvM>,
    i: int,
    acc: Seq<(Seq<char>, PVm)>,
) -> PRes<(Seq<(Seq<char>, PVm)>, int)>
    decreases evs.len() - i,
{
    if i < 0 || i >= evs.len() {
        PRes::Fail(ErrKind::PrematureEnd)
    } else {
        match evs[i] {
            EvM::Start(n, al) => if n == "property"@ {
                match s_property(evs, i + 1, al) {
                    PRes::Fail(k) => PRes::Fail(k),
                    PRes::Val(p) => if i < p.1 && p.1 <= evs.len() {
                        s_props_go(evs, p.1, acc.push(p.0))
                    } else {
                        PRes::Fail(ErrKind::PrematureEnd)
                    },
                }
            } else {
                match s_skip(evs, i + 1, 1) {
                    None => PRes::Fail(ErrKind::PrematureEnd),
                    Some(j) => if i < j && j <= evs.len() {
                        s_props_go(evs, j, acc)
                    } else {
                        PRes::Fail(ErrKind::PrematureEnd)
                    },
                }
            },
            EvM::End(n) => if n == "properties"@ {
                PRes::Val((acc, i + 1))
            } else {
                s_props_go(evs, i + 1, acc)
            },
            _ => s_props_go(evs, i + 1, acc),
        }
    }
}

/// A whole `<properties>` block; `i` is the position just after its start
/// tag.
pub open spec fn s_properties(evs: Seq<EvM>, i: int) -> PRes<(Seq<(Seq<char>, PVm)>, int)> {
    s_props_go(evs, i, Seq::empty())
}

/// Parses a `<properties>` block; `start` is the position just after its
/// start tag.
pub(crate) fn parse_properties(evs: &Vec<Event>, start: usize) -> (r: Result<
    (Properties, usize),
    TiledError,
>)
    requires
        start <= evs@.len(),
    ensures
        match r {
            Ok(p) => start < p.1 <= evs@.len() && s_properties(evs_m(evs@), start as int)
                == PRes::Val((p.0.entry_seq(), p.1 as int)),
            Err(e) => s_properties(evs_m(evs@), start as int) == PRes::<(
                Seq<(Seq<char>, PVm)>,
                int,
            )>::Fail(e.kind()),
        },
{
    let mut i: usize = start;
    let mut entries: Vec<(String, PropertyValue)> = Vec::new();
    proof {
        assert(entries_m(entries@) =~= Seq::<(Seq<char>, PVm)>::empty());
    }
    loop
        invariant
            start <= i <= evs@.len(),
            s_properties(evs_m(evs@), start as int) == s_props_go(
                evs_m(evs@),
                i as int,
                entries_m(entries@),
            ),
        decreases evs@.len() - i,
    {
        if i == evs.len() {
            return Err(
                TiledError::PrematureEnd("properties block is not closed".to_owned()),
            );
        }
        let ev = &evs[i];
        proof {
            assert(evs_m(evs@)[i as int] == ev_m(evs@[i as int]));
        }
        match ev {
            Event::Start(n, al) => {
                if str_eq(n.as_str(), "property") {
                    match parse_property(evs, i + 1, al) {
                        Err(e) => {
                            return Err(e);
                        },
                        Ok((entry, j)) => {
                            proof {
                                assert(entries_m(entries@.push((entry.0, entry.1))) =~= entries_m(
                                    entries@,
                                ).push((entry.0@, pv_m(entry.1))));
                            }
                            entries.push(entry);
                            i = j;
                        },
                    }
                } else {
                    match skip_subtree(evs, i + 1) {
                        None => {
                            return Err(
                                TiledError::PrematureEnd(
                                    "properties block is not closed".to_owned(),
                                ),
                            );
                        },
                        Some(j) => {
                            i = j;
                        },
                    }
                }
            },
            Event::End(n) => {
                if str_eq(n.as_str(), "properties") {
                    return Ok((Properties { entries }, i + 1));
                }
                i = i + 1;
            },
            _ => {
                i = i + 1;
            },
        }
    }
}

} // verus!
