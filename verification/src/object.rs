//! Free-form objects and object groups: shapes placed off the tile grid.
//!
//! Coordinates are whole pixels (signed); a point list is parsed from
//! whitespace-separated `x,y` pairs, relative to the object's own position.

use vstd::prelude::*;

use crate::error::{ErrKind, PRes, TiledError};
use crate::events::{
    attrs_m, ev_m, evs_m, get_attr, get_i32_attr, opt_colour_attr, opt_i32_attr, opt_str_attr,
    skip_subtree, s_find_attr, s_opt_colour, s_opt_i32_or, s_opt_str_or, s_req_i32, s_skip, Event,
    EvM,
};
use crate::properties::{parse_properties, props_map, s_properties, Properties, PVm};
use crate::strutil::{parse_i32_str, s_index_of, s_parse_i32, str_eq, find_char};
use crate::Colour;

verus! {

/// The shape of an object; rectangle is the default when no shape child is
/// present.
#[derive(Debug, Clone, PartialEq)]
pub enum ObjectShape {
    Rect { width: i32, height: i32 },
    Ellipse { width: i32, height: i32 },
    Polygon { points: Vec<(i32, i32)> },
    Polyline { points: Vec<(i32, i32)> },
    Point,
}

/// The spec-level mirror of an [`ObjectShape`].
pub enum ShapeM {
    RectS(i32, i32),
    EllipseS(i32, i32),
    PolygonS(Seq<(i32, i32)>),
    PolylineS(Seq<(i32, i32)>),
    PointS,
}

pub open spec fn shape_m(s: ObjectShape) -> ShapeM {
    match s {
        ObjectShape::Rect { width, height } => ShapeM::RectS(width, height),
        ObjectShape::Ellipse { width, height } => ShapeM::EllipseS(width, height),
        ObjectShape::Polygon { points } => ShapeM::PolygonS(points@),
        ObjectShape::Polyline { points } => ShapeM::PolylineS(points@),
        ObjectShape::Point => ShapeM::PointS,
    }
}

/// One object: its position, shape and properties.
#[derive(Debug, Clone, PartialEq)]
pub struct Object {
    pub x: i32,
    pub y: i32,
    pub shape: ObjectShape,
    pub properties: Properties,
}

/// The spec-level mirror of an [`Object`].
pub struct ObjectM {
    pub x: i32,
    pub y: i32,
    pub shape: ShapeM,
    pub properties: Map<Seq<char>, PVm>,
}

impl Object {
    pub open spec fn m(&self) -> ObjectM {
        ObjectM { x: self.x, y: self.y, shape: shape_m(self.shape), properties: self.properties@ }
    }
}

pub open spec fn objects_m(v: Seq<Object>) -> Seq<ObjectM> {
    v.map_values(|o: Object| o.m())
}

/// A group of objects with a name and an optional colour.
#[derive(Debug, Clone, PartialEq)]
pub struct ObjectGroup {
    pub name: String,
    pub colour: Option<Colour>,
    pub objects: Vec<Object>,
}

/// The spec-level mirror of an [`ObjectGroup`].
pub struct ObjectGroupM {
    pub name: Seq<char>,
    pub colour: Option<Colour>,
    pub objects: Seq<ObjectM>,
}

impl ObjectGroup {
    pub open spec fn m(&self) -> ObjectGroupM {
        ObjectGroupM {
            name: self.name@,
            colour: self.colour,
            objects: objects_m(self.objects@),
        }
    }
}

// ---------------------------------------------------------------------------
// Point lists
// ---------------------------------------------------------------------------

/// One `x,y` pair.
pub open spec fn s_pair(t: Seq<char>) -> Option<(i32, i32)> {
    match s_index_of(t, ',') {
        None => None,
        Some(p) => match (s_parse_i32(t.take(p)), s_parse_i32(t.subrange(p + 1, t.len() as int))) {
            (Some(x), Some(y)) => Some((x, y)),
            _ => None,
        },
    }
}

pub open spec fn s_points_flush(tok: Seq<char>, acc: Seq<(i32, i32)>) -> Option<Seq<(i32, i32)>> {
    if tok.len() == 0 {
        Some(acc)
    } else {
        match s_pair(tok) {
            Some(p) => Some(acc.push(p)),
            None => None,
        }
    }
}

pub open spec fn s_points_go(
    s: Seq<char>,
    i: int,
    cur: Seq<char>,
    acc: Seq<(i32, i32)>,
) -> Option<Seq<(i32, i32)>>
    decreases s.len() - i,
{
    if i < 0 || i >= s.len() {
        s_points_flush(cur, acc)
    } else if crate::strutil::is_ws(s[i]) {
        match s_points_flush(cur, acc) {
            None => None,
            Some(a2) => s_points_go(s, i + 1, Seq::empty(), a2),
        }
    } else {
        s_points_go(s, i + 1, cur.push(s[i]), acc)
    }
}

/// The point list a `points` attribute denotes: whitespace-separated
/// `x,y` pairs in given order.
pub open spec fn s_points(s: Seq<char>) -> Option<Seq<(i32, i32)>> {
    s_points_go(s, 0, Seq::<char>::empty(), Seq::<(i32, i32)>::empty())
}

fn flush_pair(s: &str, a: usize, b: usize, acc: Vec<(i32, i32)>) -> (r: Option<Vec<(i32, i32)>>)
    requires
        a <= b <= s@.len(),
    ensures
        match r {
            Some(v) => s_points_flush(s@.subrange(a as int, b as int), acc@) == Some(v@),
            None => s_points_flush(s@.subrange(a as int, b as int), acc@) is None,
        },
{
    if a == b {
        return Some(acc);
    }
    let t: &str = s.substring_char(a, b);
    let m: usize = t.unicode_len();
    match find_char(t, ',') {
        None => None,
        Some(p) => {
            let xs: &str = t.substring_char(0, p);
            let ys: &str = t.substring_char(p + 1, m);
            proof {
                assert(xs@ =~= t@.take(p as int));
                assert(ys@ =~= t@.subrange(p as int + 1, t@.len() as int));
            }
            match (parse_i32_str(xs), parse_i32_str(ys)) {
                (Some(x), Some(y)) => {
                    let mut acc2 = acc;
                    acc2.push((x, y));
                    Some(acc2)
                },
                _ => None,
            }
        },
    }
}

/// Decodes a `points` attribute.
pub fn parse_points(s: &str) -> (r: Option<Vec<(i32, i32)>>)
    ensures
        match r {
            Some(v) => s_points(s@) == Some(v@),
            None => s_points(s@) is None,
        },
{
    let n: usize = s.unicode_len();
    let mut start: usize = 0;
    let mut i: usize = 0;
    let mut acc: Vec<(i32, i32)> = Vec::new();
    proof {
        assert(s@.subrange(0, 0) =~= Seq::<char>::empty());
    }
    while i < n
        invariant
            n == s@.len(),
            start <= i <= n,
            s_points(s@) == s_points_go(s@, i as int, s@.subrange(start as int, i as int), acc@),
        decreases n - i,
    {
        let c: char = s.get_char(i);
        if crate::strutil::is_ws_char(c) {
            match flush_pair(s, start, i, acc) {
                None => {
                    return None;
                },
                Some(a2) => {
                    acc = a2;
                },
            }
            proof {
                assert(s@.subrange(i as int + 1, i as int + 1) =~= Seq::<char>::empty());
            }
            start = i + 1;
        } else {
            proof {
                assert(s@.subrange(start as int, i as int + 1) =~= s@.subrange(
                    start as int,
                    i as int,
                ).push(s@[i as int]));
            }
        }
        i = i + 1;
    }
    flush_pair(s, start, n, acc)
}

// ---------------------------------------------------------------------------
// One `<object>` element
// ---------------------------------------------------------------------------

/// The children of an `<object>` element; a shape child replaces the shape,
/// the last one standing wins, and rectangle is the default.
pub open spec fn s_object_go(
    evs: Seq<EvM>,
    i: int,
    x: i32,
    y: i32,
    w: i32,
    h: i32,
    sh: ShapeM,
    pr: Map<Seq<char>, PVm>,
) -> PRes<(ObjectM, int)>
    decreases evs.len() - i,
{
    if i < 0 || i >= evs.len() {
        PRes::Fail(ErrKind::PrematureEnd)
    } else {
        match evs[i] {
            EvM::Start(n, al) => if n == "ellipse"@ {
                match s_skip(evs, i + 1, 1) {
                    None => PRes::Fail(ErrKind::PrematureEnd),
                    Some(j) => if i < j && j <= evs.len() {
                        s_object_go(evs, j, x, y, w, h, ShapeM::EllipseS(w, h), pr)
                    } else {
                        PRes::Fail(ErrKind::PrematureEnd)
                    },
                }
            } else if n == "polygon"@ {
                match s_find_attr(al, "points"@) {
                    None => PRes::Fail(ErrKind::MalformedAttributes),
                    Some(v) => match s_points(v) {
                        None => PRes::Fail(ErrKind::MalformedAttributes),
                        Some(pts) => match s_skip(evs, i + 1, 1) {
                            None => PRes::Fail(ErrKind::PrematureEnd),
                            Some(j) => if i < j && j <= evs.len() {
                                s_object_go(evs, j, x, y, w, h, ShapeM::PolygonS(pts), pr)
                            } else {
                                PRes::Fail(ErrKind::PrematureEnd)
                            },
                        },
                    },
                }
            } else if n == "polyline"@ {
                match s_find_attr(al, "points"@) {
                    None => PRes::Fail(ErrKind::MalformedAttributes),
                    Some(v) => match s_points(v) {
                        None => PRes::Fail(ErrKind::MalformedAttributes),
                        Some(pts) => match s_skip(evs, i + 1, 1) {
                            None => PRes::Fail(ErrKind::PrematureEnd),
                            Some(j) => if i < j && j <= evs.len() {
                                s_object_go(evs, j, x, y, w, h, ShapeM::PolylineS(pts), pr)
                            } else {
                                PRes::Fail(ErrKind::PrematureEnd)
                            },
                        },
                    },
                }
            } else if n == "point"@ {
                match s_skip(evs, i + 1, 1) {
                    None => PRes::Fail(ErrKind::PrematureEnd),
                    Some(j) => if i < j && j <= evs.len() {
                        s_object_go(evs, j, x, y, w, h, ShapeM::PointS, pr)
                    } else {
                        PRes::Fail(ErrKind::PrematureEnd)
                    },
                }
            } else if n == "properties"@ {
                match s_properties(evs, i + 1) {
                    PRes::Fail(k) => PRes::Fail(k),
                    PRes::Val(p) => if i < p.1 && p.1 <= evs.len() {
                        s_object_go(evs, p.1, x, y, w, h, sh, props_map(p.0))
                    } else {
                        PRes::Fail(ErrKind::PrematureEnd)
                    },
                }
            } else {
                match s_skip(evs, i + 1, 1) {
                    None => PRes::Fail(ErrKind::PrematureEnd),
                    Some(j) => if i < j && j <= evs.len() {
                        s_object_go(evs, j, x, y, w, h, sh, pr)
                    } else {
                        PRes::Fail(ErrKind::PrematureEnd)
                    },
                }
            },
            EvM::End(n) => if n == "object"@ {
                PRes::Val((ObjectM { x, y, shape: sh, properties: pr }, i + 1))
            } else {
                s_object_go(evs, i + 1, x, y, w, h, sh, pr)
            },
            _ => s_object_go(evs, i + 1, x, y, w, h, sh, pr),
        }
    }
}

/// An `<object>` element: `x` and `y` are required, `width` and `height`
/// default to zero.
pub open spec fn s_object(evs: Seq<EvM>, i: int, al: Seq<(Seq<char>, Seq<char>)>) -> PRes<
    (ObjectM, int),
> {
    match (s_req_i32(al, "x"@), s_req_i32(al, "y"@)) {
        (Some(x), Some(y)) => {
            let w = s_opt_i32_or(al, "width"@, 0);
            let h = s_opt_i32_or(al, "height"@, 0);
            s_object_go(evs, i, x, y, w, h, ShapeM::RectS(w, h), Map::empty())
        },
        _ => PRes::Fail(ErrKind::MalformedAttributes),
    }
}

/// Parses an `<object>` element; `start` is the position just after its
/// start tag.
pub(crate) fn parse_object(evs: &Vec<Event>, start: usize, al: &Vec<(String, String)>) -> (r: Result<
    (Object, usize),
    TiledError,
>)
    requires
        start <= evs@.len(),
    ensures
        match r {
            Ok(p) => start < p.1 <= evs@.len() && s_object(evs_m(evs@), start as int, attrs_m(al@))
                == PRes::Val((p.0.m(), p.1 as int)),
            Err(e) => s_object(evs_m(evs@), start as int, attrs_m(al@)) == PRes::<(
                ObjectM,
                int,
            )>::Fail(e.kind()),
        },
{
    let x: i32 = match get_i32_attr(al, "x") {
        None => {
            return Err(
                TiledError::MalformedAttributes(
                    "object must have an x and y with correct types".to_owned(),
                ),
            );
        },
        Some(v) => v,
    };
    let y: i32 = match get_i32_attr(al, "y") {
        None => {
            return Err(
                TiledError::MalformedAttributes(
                    "object must have an x and y with correct types".to_owned(),
                ),
            );
        },
        Some(v) => v,
    };
    let w: i32 = opt_i32_attr(al, "width", 0);
    let h: i32 = opt_i32_attr(al, "height", 0);
    let mut i: usize = start;
    let mut shape: ObjectShape = ObjectShape::Rect { width: w, height: h };
    let mut properties: Properties = Properties::new();
    loop
        invariant
            start <= i <= evs@.len(),
            s_object(evs_m(evs@), start as int, attrs_m(al@)) == s_object_go(
                evs_m(evs@),
                i as int,
                x,
                y,
                w,
                h,
                shape_m(shape),
                properties@,
            ),
        decreases evs@.len() - i,
    {
        if i == evs.len() {
            return Err(TiledError::PrematureEnd("object element is not closed".to_owned()));
        }
        let ev = &evs[i];
        proof {
            assert(evs_m(evs@)[i as int] == ev_m(evs@[i as int]));
        }
        match ev {
            Event::Start(n, al2) => {
                if str_eq(n.as_str(), "ellipse") {
                    match skip_subtree(evs, i + 1) {
                        None => {
                            return Err(
                                TiledError::PrematureEnd(
                                    "object element is not closed".to_owned(),
                                ),
                            );
                        },
                        Some(j) => {
                            shape = ObjectShape::Ellipse { width: w, height: h };
                            i = j;
                        },
                    }
                } else if str_eq(n.as_str(), "polygon") || str_eq(n.as_str(), "polyline") {
                    let v: String = match get_attr(al2, "points") {
                        None => {
                            return Err(
                                TiledError::MalformedAttributes(
                                    "polygon and polyline must have points".to_owned(),
                                ),
                            );
                        },
                        Some(v) => v,
                    };
                    let pts: Vec<(i32, i32)> = match parse_points(v.as_str()) {
                        None => {
                            return Err(
                                TiledError::MalformedAttributes(
                                    "points must be whitespace-separated x,y pairs".to_owned(),
                                ),
                            );
                        },
                        Some(p) => p,
                    };
                    match skip_subtree(evs, i + 1) {
                        None => {
                            return Err(
                                TiledError::PrematureEnd(
                                    "object element is not closed".to_owned(),
                                ),
                            );
                        },
                        Some(j) => {
                            if str_eq(n.as_str(), "polygon") {
                                shape = ObjectShape::Polygon { points: pts };
                            } else {
                                shape = ObjectShape::Polyline { points: pts };
                            }
                            i = j;
                        },
                    }
                } else if str_eq(n.as_str(), "point") {
                    match skip_subtree(evs, i + 1) {
                        None => {
                            return Err(
                                TiledError::PrematureEnd(
                                    "object element is not closed".to_owned(),
                                ),
                            );
                        },
                        Some(j) => {
                            shape = ObjectShape::Point;
                            i = j;
                        },
                    }
                } else if str_eq(n.as_str(), "properties") {
                    match parse_properties(evs, i + 1) {
                        Err(e) => {
                            return Err(e);
                        },
                        Ok((p, j)) => {
                            properties = p;
                            i = j;
                        },
                    }
                } else {
                    match skip_subtree(evs, i + 1) {
                        None => {
                            return Err(
                                TiledError::PrematureEnd(
                                    "object element is not closed".to_owned(),
                                ),
                            );
                        },
                        Some(j) => {
                            i = j;
                        },
                    }
                }
            },
            Event::End(n) => {
                if str_eq(n.as_str(), "object") {
                    return Ok((Object { x, y, shape, properties }, i + 1));
                }
                i = i + 1;
            },
            _ => {
                i = i + 1;
            },
        }
    }
}

// ---------------------------------------------------------------------------
// One `<objectgroup>` element
// ---------------------------------------------------------------------------

/// The children of an `<objectgroup>`.
pub open spec fn s_object_group_go(
    evs: Seq<EvM>,
    i: int,
    name: Seq<char>,
    colour: Option<Colour>,
    acc: Seq<ObjectM>,
) -> PRes<(ObjectGroupM, int)>
    decreases evs.len() - i,
{
    if i < 0 || i >= evs.len() {
        PRes::Fail(ErrKind::PrematureEnd)
    } else {
        match evs[i] {
            EvM::Start(n, al) => if n == "object"@ {
                match s_object(evs, i + 1, al) {
                    PRes::Fail(k) => PRes::Fail(k),
                    PRes::Val(p) => if i < p.1 && p.1 <= evs.len() {
                        s_object_group_go(evs, p.1, name, colour, acc.push(p.0))
                    } else {
                        PRes::Fail(ErrKind::PrematureEnd)
                    },
                }
            } else {
                match s_skip(evs, i + 1, 1) {
                    None => PRes::Fail(ErrKind::PrematureEnd),
                    Some(j) => if i < j && j <= evs.len() {
                        s_object_group_go(evs, j, name, colour, acc)
                    } else {
                        PRes::Fail(ErrKind::PrematureEnd)
                    },
                }
            },
            EvM::End(n) => if n == "objectgroup"@ {
                PRes::Val((ObjectGroupM { name, colour, objects: acc }, i + 1))
            } else {
                s_object_group_go(evs, i + 1, name, colour, acc)
            },
            _ => s_object_group_go(evs, i + 1, name, colour, acc),
        }
    }
}

/// An `<objectgroup>` element: the name defaults to empty, the colour is
/// optional, and the objects keep document order.
pub open spec fn s_object_group(evs: Seq<EvM>, i: int, al: Seq<(Seq<char>, Seq<char>)>) -> PRes<
    (ObjectGroupM, int),
> {
    s_object_group_go(
        evs,
        i,
        s_opt_str_or(al, "name"@, ""@),
        s_opt_colour(al, "color"@),
        Seq::empty(),
    )
}

/// Parses an `<objectgroup>` element; `start` is the position just after
/// its start tag.
pub(crate) fn parse_object_group(evs: &Vec<Event>, start: usize, al: &Vec<(String, String)>) -> (r:
    Result<(ObjectGroup, usize), TiledError>)
    requires
        start <= evs@.len(),
    ensures
        match r {
            Ok(p) => start < p.1 <= evs@.len() && s_object_group(
                evs_m(evs@),
                start as int,
                attrs_m(al@),
            ) == PRes::Val((p.0.m(), p.1 as int)),
            Err(e) => s_object_group(evs_m(evs@), start as int, attrs_m(al@)) == PRes::<(
                ObjectGroupM,
                int,
            )>::Fail(e.kind()),
        },
{
    let name: String = opt_str_attr(al, "name", "");
    let colour: Option<Colour> = opt_colour_attr(al, "color");
    let mut i: usize = start;
    let mut objects: Vec<Object> = Vec::new();
    proof {
        assert(objects_m(objects@) =~= Seq::<ObjectM>::empty());
    }
    loop
        invariant
            start <= i <= evs@.len(),
            s_object_group(evs_m(evs@), start as int, attrs_m(al@)) == s_object_group_go(
                evs_m(evs@),
                i as int,
                name@,
                colour,
                objects_m(objects@),
            ),
        decreases evs@.len() - i,
    {
        if i == evs.len() {
            return Err(TiledError::PrematureEnd("objectgroup is not closed".to_owned()));
        }
        let ev = &evs[i];
        proof {
            assert(evs_m(evs@)[i as int] == ev_m(evs@[i as int]));
        }
        match ev {
            Event::Start(n, al2) => {
                if str_eq(n.as_str(), "object") {
                    match parse_object(evs, i + 1, al2) {
                        Err(e) => {
                            return Err(e);
                        },
                        Ok((o, j)) => {
                            proof {
                                assert(objects_m(objects@.push(o)) =~= objects_m(objects@).push(
                                    o.m(),
                                ));
                            }
                            objects.push(o);
                            i = j;
                        },
                    }
                } else {
                    match skip_subtree(evs, i + 1) {
                        None => {
                            return Err(
                                TiledError::PrematureEnd("objectgroup is not closed".to_owned()),
                            );
                        },
                        Some(j) => {
                            i = j;
                        },
                    }
                }
            },
            Event::End(n) => {
                if str_eq(n.as_str(), "objectgroup") {
                    return Ok((ObjectGroup { name, colour, objects }, i + 1));
                }
                i = i + 1;
            },
            _ => {
                i = i + 1;
            },
        }
    }
}

} // verus!
