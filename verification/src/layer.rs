//! Tile layers and image layers.  A layer's grid always has exactly the
//! map's height rows of exactly the map's width entries.

use vstd::prelude::*;

use crate::codec::{decode_tile_payload, chunk_gids, rows_m, s_chunk, s_decode_text};
use crate::error::{ErrKind, PRes, TiledError};
use crate::events::{
    attrs_m, collect_text, ev_m, evs_m, get_attr, get_u32_attr, opt_str_attr, skip_subtree,
    s_find_attr, s_opt_bool_or, s_opt_str_or, s_req_u32, s_skip, s_text_go, opt_bool_attr, Event,
    EvM,
};
use crate::image::{parse_image, s_image, Image, ImageM};
use crate::properties::{parse_properties, props_map, s_properties, Properties, PVm};
use crate::strutil::str_eq;

verus! {

/// One tile layer: a row-major grid of GIDs.
#[derive(Debug, Clone, PartialEq)]
pub struct Layer {
    pub name: String,
    /// The verbatim text of the `opacity` attribute, `"1"` when absent.
    pub opacity: String,
    pub visible: bool,
    pub tiles: Vec<Vec<u32>>,
    pub properties: Properties,
}

/// The spec-level mirror of a [`Layer`].
pub struct LayerM {
    pub name: Seq<char>,
    pub opacity: Seq<char>,
    pub visible: bool,
    pub tiles: Seq<Seq<u32>>,
    pub properties: Map<Seq<char>, PVm>,
}

impl Layer {
    pub open spec fn m(&self) -> LayerM {
        LayerM {
            name: self.name@,
            opacity: self.opacity@,
            visible: self.visible,
            tiles: rows_m(self.tiles@),
            properties: self.properties@,
        }
    }
}

/// An image layer: a name and at most one image.
#[derive(Debug, Clone, PartialEq)]
pub struct ImageLayer {
    pub name: String,
    pub image: Option<Image>,
}

/// The spec-level mirror of an [`ImageLayer`].
pub struct ImageLayerM {
    pub name: Seq<char>,
    pub image: Option<ImageM>,
}

pub open spec fn opt_image_m(im: Option<Image>) -> Option<ImageM> {
    match im {
        None => None,
        Some(x) => Some(x.m()),
    }
}

impl ImageLayer {
    pub open spec fn m(&self) -> ImageLayerM {
        ImageLayerM { name: self.name@, image: opt_image_m(self.image) }
    }
}

// ---------------------------------------------------------------------------
// The `<data>` element
// ---------------------------------------------------------------------------

/// The `<tile gid="..">` children of an unencoded `<data>` element,
/// collected in document order and chunked by the layer's width.
pub open spec fn s_gids_go(evs: Seq<EvM>, i: int, acc: Seq<u32>, w: u32, h: u32) -> PRes<
    (Seq<Seq<u32>>, int),
>
    decreases evs.len() - i,
{
    if i < 0 || i >= evs.len() {
        PRes::Fail(ErrKind::PrematureEnd)
    } else {
        match evs[i] {
            EvM::Start(n, al) => if n == "tile"@ {
                match s_req_u32(al, "gid"@) {
                    None => PRes::Fail(ErrKind::MalformedAttributes),
                    Some(gid) => match s_skip(evs, i + 1, 1) {
                        None => PRes::Fail(ErrKind::PrematureEnd),
                        Some(j) => if i < j && j <= evs.len() {
                            s_gids_go(evs, j, acc.push(gid), w, h)
                        } else {
                            PRes::Fail(ErrKind::PrematureEnd)
                        },
                    },
                }
            } else {
                match s_skip(evs, i + 1, 1) {
                    None => PRes::Fail(ErrKind::PrematureEnd),
                    Some(j) => if i < j && j <= evs.len() {
                        s_gids_go(evs, j, acc, w, h)
                    } else {
                        PRes::Fail(ErrKind::PrematureEnd)
                    },
                }
            },
            EvM::End(n) => if n == "data"@ {
                match s_chunk(acc, w as int, h as int) {
                    PRes::Fail(k) => PRes::Fail(k),
                    PRes::Val(rows) => PRes::Val((rows, i + 1)),
                }
            } else {
                s_gids_go(evs, i + 1, acc, w, h)
            },
            _ => s_gids_go(evs, i + 1, acc, w, h),
        }
    }
}

/// A `<data>` element: unencoded children, or text decoded by the
/// `encoding` and `compression` attributes.
pub open spec fn s_data(
    evs: Seq<EvM>,
    i: int,
    al: Seq<(Seq<char>, Seq<char>)>,
    w: u32,
    h: u32,
) -> PRes<(Seq<Seq<u32>>, int)> {
    match s_find_attr(al, "encoding"@) {
        None => match s_find_attr(al, "compression"@) {
            Some(_) => PRes::Fail(ErrKind::MalformedAttributes),
            None => s_gids_go(evs, i, Seq::empty(), w, h),
        },
        Some(e) => match s_text_go(evs, i, Seq::empty()) {
            PRes::Fail(k) => PRes::Fail(k),
            PRes::Val(p) => match s_decode_text(
                e,
                s_find_attr(al, "compression"@),
                p.0,
                w as int,
                h as int,
            ) {
                PRes::Fail(k) => PRes::Fail(k),
                PRes::Val(rows) => PRes::Val((rows, p.1)),
            },
        },
    }
}

/// Parses a `<data>` element; `start` is the position just after its start
/// tag.
pub(crate) fn parse_data(
    evs: &Vec<Event>,
    start: usize,
    al: &Vec<(String, String)>,
    w: u32,
    h: u32,
) -> (r: Result<(Vec<Vec<u32>>, usize), TiledError>)
    requires
        start <= evs@.len(),
    ensures
        match r {
            Ok(p) => start < p.1 <= evs@.len() && s_data(
                evs_m(evs@),
                start as int,
                attrs_m(al@),
                w,
                h,
            ) == PRes::Val((rows_m(p.0@), p.1 as int)) && p.0@.len() == h && (forall|t: int|
                0 <= t < p.0@.len() ==> #[trigger] p.0@[t]@.len() == w),
            Err(e) => s_data(evs_m(evs@), start as int, attrs_m(al@), w, h) == PRes::<(
                Seq<Seq<u32>>,
                int,
            )>::Fail(e.kind()),
        },
{
    let encoding: Option<String> = get_attr(al, "encoding");
    let compression: Option<String> = get_attr(al, "compression");
    match encoding {
        None => {
            if compression.is_some() {
                return Err(
                    TiledError::MalformedAttributes(
                        "compression without an encoding is not supported".to_owned(),
                    ),
                );
            }
            let mut i: usize = start;
            let mut gids: Vec<u32> = Vec::new();
            loop
                invariant
                    start <= i <= evs@.len(),
                    s_data(evs_m(evs@), start as int, attrs_m(al@), w, h) == s_gids_go(
                        evs_m(evs@),
                        i as int,
                        gids@,
                        w,
                        h,
                    ),
                decreases evs@.len() - i,
            {
                if i == evs.len() {
                    return Err(
                        TiledError::PrematureEnd("data element is not closed".to_owned()),
                    );
                }
                let ev = &evs[i];
                proof {
                    assert(evs_m(evs@)[i as int] == ev_m(evs@[i as int]));
                }
                match ev {
                    Event::Start(n, al2) => {
                        if str_eq(n.as_str(), "tile") {
                            let gid: u32 = match get_u32_attr(al2, "gid") {
                                None => {
                                    return Err(
                                        TiledError::MalformedAttributes(
                                            "tile must have a gid with the correct type".to_owned(),
                                        ),
                                    );
                                },
                                Some(v) => v,
                            };
                            match skip_subtree(evs, i + 1) {
                                None => {
                                    return Err(
                                        TiledError::PrematureEnd(
                                            "data element is not closed".to_owned(),
                                        ),
                                    );
                                },
                                Some(j) => {
                                    gids.push(gid);
                                    i = j;
                                },
                            }
                        } else {
                            match skip_subtree(evs, i + 1) {
                                None => {
                                    return Err(
                                        TiledError::PrematureEnd(
                                            "data element is not closed".to_owned(),
                                        ),
                                    );
                                },
                                Some(j) => {
                                    i = j;
                                },
                            }
                        }
                    },
                    Event::End(n) => {
                        if str_eq(n.as_str(), "data") {
                            return match chunk_gids(gids, w, h) {
                                Err(e) => Err(e),
                                Ok(rows) => Ok((rows, i + 1)),
                            };
                        }
                        i = i + 1;
                    },
                    _ => {
                        i = i + 1;
                    },
                }
            }
        },
        Some(e) => {
            let (txt, j) = match collect_text(evs, start) {
                Err(err) => {
                    return Err(err);
                },
                Ok(p) => p,
            };
            let comp: Option<&str> = match &compression {
                Some(c) => Some(c.as_str()),
                None => None,
            };
            match decode_tile_payload(e.as_str(), comp, txt.as_str(), w, h) {
                Err(err) => Err(err),
                Ok(rows) => Ok((rows, j)),
            }
        },
    }
}

// ---------------------------------------------------------------------------
// The `<layer>` element
// ---------------------------------------------------------------------------

pub open spec fn opt_rows_m(d: Option<Vec<Vec<u32>>>) -> Option<Seq<Seq<u32>>> {
    match d {
        None => None,
        Some(v) => Some(rows_m(v@)),
    }
}

/// The children of a `<layer>`: its `<data>` and its properties.  A layer
/// without a `<data>` element has no grid of the required dimensions and is
/// rejected.
pub open spec fn s_layer_go(
    evs: Seq<EvM>,
    i: int,
    name: Seq<char>,
    opacity: Seq<char>,
    visible: bool,
    data: Option<Seq<Seq<u32>>>,
    pr: Map<Seq<char>, PVm>,
    w: u32,
    h: u32,
) -> PRes<(LayerM, int)>
    decreases evs.len() - i,
{
    if i < 0 || i >= evs.len() {
        PRes::Fail(ErrKind::PrematureEnd)
    } else {
        match evs[i] {
            EvM::Start(n, al) => if n == "data"@ {
                match s_data(evs, i + 1, al, w, h) {
                    PRes::Fail(k) => PRes::Fail(k),
                    PRes::Val(p) => if i < p.1 && p.1 <= evs.len() {
                        s_layer_go(evs, p.1, name, opacity, visible, Some(p.0), pr, w, h)
                    } else {
                        PRes::Fail(ErrKind::PrematureEnd)
                    },
                }
            } else if n == "properties"@ {
                match s_properties(evs, i + 1) {
                    PRes::Fail(k) => PRes::Fail(k),
                    PRes::Val(p) => if i < p.1 && p.1 <= evs.len() {
                        s_layer_go(evs, p.1, name, opacity, visible, data, props_map(p.0), w, h)
                    } else {
                        PRes::Fail(ErrKind::PrematureEnd)
                    },
                }
            } else {
                match s_skip(evs, i + 1, 1) {
                    None => PRes::Fail(ErrKind::PrematureEnd),
                    Some(j) => if i < j && j <= evs.len() {
                        s_layer_go(evs, j, name, opacity, visible, data, pr, w, h)
                    } else {
                        PRes::Fail(ErrKind::PrematureEnd)
                    },
                }
            },
            EvM::End(n) => if n == "layer"@ {
                match data {
                    None => PRes::Fail(ErrKind::MalformedAttributes),
                    Some(tiles) => PRes::Val(
                        (LayerM { name, opacity, visible, tiles, properties: pr }, i + 1),
                    ),
                }
            } else {
                s_layer_go(evs, i + 1, name, opacity, visible, data, pr, w, h)
            },
            _ => s_layer_go(evs, i + 1, name, opacity, visible, data, pr, w, h),
        }
    }
}

/// A `<layer>` element: `name` is required, `opacity` defaults to `"1"`,
/// `visible` to true.
pub open spec fn s_layer(
    evs: Seq<EvM>,
    i: int,
    al: Seq<(Seq<char>, Seq<char>)>,
    w: u32,
    h: u32,
) -> PRes<(LayerM, int)> {
    match s_find_attr(al, "name"@) {
        None => PRes::Fail(ErrKind::MalformedAttributes),
        Some(name) => s_layer_go(
            evs,
            i,
            name,
            s_opt_str_or(al, "opacity"@, "1"@),
            s_opt_bool_or(al, "visible"@, true),
            None,
            Map::empty(),
            w,
            h,
        ),
    }
}

/// Parses a `<layer>` element; `start` is the position just after its
/// start tag.
pub(crate) fn parse_layer(
    evs: &Vec<Event>,
    start: usize,
    al: &Vec<(String, String)>,
    w: u32,
    h: u32,
) -> (r: Result<(Layer, usize), TiledError>)
    requires
        start <= evs@.len(),
    ensures
        match r {
            Ok(p) => start < p.1 <= evs@.len() && s_layer(
                evs_m(evs@),
                start as int,
                attrs_m(al@),
                w,
                h,
            ) == PRes::Val((p.0.m(), p.1 as int)) && p.0.tiles@.len() == h && (forall|t: int|
                0 <= t < p.0.tiles@.len() ==> #[trigger] p.0.tiles@[t]@.len() == w),
            Err(e) => s_layer(evs_m(evs@), start as int, attrs_m(al@), w, h) == PRes::<(
                LayerM,
                int,
            )>::Fail(e.kind()),
        },
{
    let name: String = match get_attr(al, "name") {
        None => {
            return Err(TiledError::MalformedAttributes("layer must have a name".to_owned()));
        },
        Some(v) => v,
    };
    let opacity: String = opt_str_attr(al, "opacity", "1");
    let visible: bool = opt_bool_attr(al, "visible", true);
    let mut i: usize = start;
    let mut data: Option<Vec<Vec<u32>>> = None;
    let mut properties: Properties = Properties::new();
    loop
        invariant
            start <= i <= evs@.len(),
            s_layer(evs_m(evs@), start as int, attrs_m(al@), w, h) == s_layer_go(
                evs_m(evs@),
                i as int,
                name@,
                opacity@,
                visible,
                opt_rows_m(data),
                properties@,
                w,
                h,
            ),
            match data {
                None => true,
                Some(rows) => rows@.len() == h && (forall|t: int|
                    0 <= t < rows@.len() ==> #[trigger] rows@[t]@.len() == w),
            },
        decreases evs@.len() - i,
    {
        if i == evs.len() {
            return Err(TiledError::PrematureEnd("layer element is not closed".to_owned()));
        }
        let ev = &evs[i];
        proof {
            assert(evs_m(evs@)[i as int] == ev_m(evs@[i as int]));
        }
        match ev {
            Event::Start(n, al2) => {
                if str_eq(n.as_str(), "data") {
                    match parse_data(evs, i + 1, al2, w, h) {
                        Err(e) => {
                            return Err(e);
                        },
                        Ok((rows, j)) => {
                            data = Some(rows);
                            i = j;
                        },
                    }
                } else if str_eq(n.as_str(), "properties") {
                    match parse_properties(evs, i + 1) {
                        Err(e) => {
                            return Err(e);
                        },
                        Ok((p, j)) => {
                            properties = p;
                            i = j;
                        },
                    }
                } else {
                    match skip_subtree(evs, i + 1) {
                        None => {
                            return Err(
                                TiledError::PrematureEnd(
                                    "layer element is not closed".to_owned(),
                                ),
                            );
                        },
                        Some(j) => {
                            i = j;
                        },
                    }
                }
            },
            Event::End(n) => {
                if str_eq(n.as_str(), "layer") {
                    return match data {
                        None => Err(
                            TiledError::MalformedAttributes(
                                "layer must have a data element".to_owned(),
                            ),
                        ),
                        Some(tiles) => Ok(
                            (Layer { name, opacity, visible, tiles, properties }, i + 1),
                        ),
                    };
                }
                i = i + 1;
            },
            _ => {
                i = i + 1;
            },
        }
    }
}

// ---------------------------------------------------------------------------
// The `<imagelayer>` element
// ---------------------------------------------------------------------------

/// The children of an `<imagelayer>`: at most one image is kept.
pub open spec fn s_image_layer_go(
    evs: Seq<EvM>,
    i: int,
    name: Seq<char>,
    image: Option<ImageM>,
) -> PRes<(ImageLayerM, int)>
    decreases evs.len() - i,
{
    if i < 0 || i >= evs.len() {
        PRes::Fail(ErrKind::PrematureEnd)
    } else {
        match evs[i] {
            EvM::Start(n, al) => if n == "image"@ {
                match s_image(evs, i + 1, al) {
                    PRes::Fail(k) => PRes::Fail(k),
                    PRes::Val(p) => if i < p.1 && p.1 <= evs.len() {
                        s_image_layer_go(evs, p.1, name, Some(p.0))
                    } else {
                        PRes::Fail(ErrKind::PrematureEnd)
                    },
                }
            } else {
                match s_skip(evs, i + 1, 1) {
                    None => PRes::Fail(ErrKind::PrematureEnd),
                    Some(j) => if i < j && j <= evs.len() {
                        s_image_layer_go(evs, j, name, image)
                    } else {
                        PRes::Fail(ErrKind::PrematureEnd)
                    },
                }
            },
            EvM::End(n) => if n == "imagelayer"@ {
                PRes::Val((ImageLayerM { name, image }, i + 1))
            } else {
                s_image_layer_go(evs, i + 1, name, image)
            },
            _ => s_image_layer_go(evs, i + 1, name, image),
        }
    }
}

/// An `<imagelayer>` element: `name` is required.
pub open spec fn s_image_layer(evs: Seq<EvM>, i: int, al: Seq<(Seq<char>, Seq<char>)>) -> PRes<
    (ImageLayerM, int),
> {
    match s_find_attr(al, "name"@) {
        None => PRes::Fail(ErrKind::MalformedAttributes),
        Some(name) => s_image_layer_go(evs, i, name, None),
    }
}

/// Parses an `<imagelayer>` element; `start` is the position just after
/// its start tag.
pub(crate) fn parse_image_layer(evs: &Vec<Event>, start: usize, al: &Vec<(String, String)>) -> (r:
    Result<(ImageLayer, usize), TiledError>)
    requires
        start <= evs@.len(),
    ensures
        match r {
            Ok(p) => start < p.1 <= evs@.len() && s_image_layer(
                evs_m(evs@),
                start as int,
                attrs_m(al@),
            ) == PRes::Val((p.0.m(), p.1 as int)),
            Err(e) => s_image_layer(evs_m(evs@), start as int, attrs_m(al@)) == PRes::<(
                ImageLayerM,
                int,
            )>::Fail(e.kind()),
        },
{
    let name: String = match get_attr(al, "name") {
        None => {
            return Err(
                TiledError::MalformedAttributes("image layer must have a name".to_owned()),
            );
        },
        Some(v) => v,
    };
    let mut i: usize = start;
    let mut image: Option<Image> = None;
    loop
        invariant
            start <= i <= evs@.len(),
            s_image_layer(evs_m(evs@), start as int, attrs_m(al@)) == s_image_layer_go(
                evs_m(evs@),
                i as int,
                name@,
                opt_image_m(image),
            ),
        decreases evs@.len() - i,
    {
        if i == evs.len() {
            return Err(TiledError::PrematureEnd("image layer is not closed".to_owned()));
        }
        let ev = &evs[i];
        proof {
            assert(evs_m(evs@)[i as int] == ev_m(evs@[i as int]));
        }
        match ev {
            Event::Start(n, al2) => {
                if str_eq(n.as_str(), "image") {
                    match parse_image(evs, i + 1, al2) {
                        Err(e) => {
                            return Err(e);
                        },
                        Ok((im, j)) => {
                            image = Some(im);
                            i = j;
                        },
                    }
                } else {
                    match skip_subtree(evs, i + 1) {
                        None => {
                            return Err(
                                TiledError::PrematureEnd("image layer is not closed".to_owned()),
                            );
                        },
                        Some(j) => {
                            i = j;
                        },
                    }
                }
            },
            Event::End(n) => {
                if str_eq(n.as_str(), "imagelayer") {
                    return Ok((ImageLayer { name, image }, i + 1));
                }
                i = i + 1;
            },
            _ => {
                i = i + 1;
            },
        }
    }
}

} // verus!
