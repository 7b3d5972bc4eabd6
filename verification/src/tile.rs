//! Per-tile metadata: images, properties, collision shapes and animation.

use vstd::prelude::*;

use crate::error::{ErrKind, PRes, TiledError};
use crate::events::{attrs_m, ev_m, evs_m, get_u32_attr, skip_subtree, s_req_u32, s_skip, Event, EvM};
use crate::frame::{parse_animation, s_animation, Frame};
use crate::image::{images_m, parse_image, s_image, Image, ImageM};
use crate::object::{parse_object_group, s_object_group, ObjectGroup, ObjectGroupM};
use crate::properties::{parse_properties, props_map, s_properties, Properties, PVm};
use crate::strutil::str_eq;

verus! {

/// Metadata of one tile, identified by its 0-based local id within the
/// owning tileset.
#[derive(Debug, Clone, PartialEq)]
pub struct Tile {
    pub id: u32,
    pub images: Vec<Image>,
    pub properties: Properties,
    pub objectgroup: Option<ObjectGroup>,
    pub animation: Option<Vec<Frame>>,
}

/// The spec-level mirror of a [`Tile`].
pub struct TileM {
    pub id: u32,
    pub images: Seq<ImageM>,
    pub properties: Map<Seq<char>, PVm>,
    pub objectgroup: Option<ObjectGroupM>,
    pub animation: Option<Seq<Frame>>,
}

pub open spec fn opt_og_m(og: Option<ObjectGroup>) -> Option<ObjectGroupM> {
    match og {
        None => None,
        Some(g) => Some(g.m()),
    }
}

pub open spec fn opt_anim_m(a: Option<Vec<Frame>>) -> Option<Seq<Frame>> {
    match a {
        None => None,
        Some(v) => Some(v@),
    }
}

impl Tile {
    pub open spec fn m(&self) -> TileM {
        TileM {
            id: self.id,
            images: images_m(self.images@),
            properties: self.properties@,
            objectgroup: opt_og_m(self.objectgroup),
            animation: opt_anim_m(self.animation),
        }
    }
}

pub open spec fn tiles_m(v: Seq<Tile>) -> Seq<TileM> {
    v.map_values(|t: Tile| t.m())
}

/// The children of a `<tile>` element.
pub open spec fn s_tile_go(
    evs: Seq<EvM>,
    i: int,
    id: u32,
    imgs: Seq<ImageM>,
    pr: Map<Seq<char>, PVm>,
    og: Option<ObjectGroupM>,
    anim: Option<Seq<Frame>>,
) -> PRes<(TileM, int)>
    decreases evs.len() - i,
{
    if i < 0 || i >= evs.len() {
        PRes::Fail(ErrKind::PrematureEnd)
    } else {
        match evs[i] {
            EvM::Start(n, al) => if n == "image"@ {
                match s_image(evs, i + 1, al) {
                    PRes::Fail(k) => PRes::Fail(k),
                    PRes::Val(p) => if i < p.1 && p.1 <= evs.len() {
                        s_tile_go(evs, p.1, id, imgs.push(p.0), pr, og, anim)
                    } else {
                        PRes::Fail(ErrKind::PrematureEnd)
                    },
                }
            } else if n == "properties"@ {
                match s_properties(evs, i + 1) {
                    PRes::Fail(k) => PRes::Fail(k),
                    PRes::Val(p) => if i < p.1 && p.1 <= evs.len() {
                        s_tile_go(evs, p.1, id, imgs, props_map(p.0), og, anim)
                    } else {
                        PRes::Fail(ErrKind::PrematureEnd)
                    },
                }
            } else if n == "objectgroup"@ {
                match s_object_group(evs, i + 1, al) {
                    PRes::Fail(k) => PRes::Fail(k),
                    PRes::Val(p) => if i < p.1 && p.1 <= evs.len() {
                        s_tile_go(evs, p.1, id, imgs, pr, Some(p.0), anim)
                    } else {
                        PRes::Fail(ErrKind::PrematureEnd)
                    },
                }
            } else if n == "animation"@ {
                match s_animation(evs, i + 1) {
                    PRes::Fail(k) => PRes::Fail(k),
                    PRes::Val(p) => if i < p.1 && p.1 <= evs.len() {
                        s_tile_go(evs, p.1, id, imgs, pr, og, Some(p.0))
                    } else {
                        PRes::Fail(ErrKind::PrematureEnd)
                    },
                }
            } else {
                match s_skip(evs, i + 1, 1) {
                    None => PRes::Fail(ErrKind::PrematureEnd),
                    Some(j) => if i < j && j <= evs.len() {
                        s_tile_go(evs, j, id, imgs, pr, og, anim)
                    } else {
                        PRes::Fail(ErrKind::PrematureEnd)
                    },
                }
            },
            EvM::End(n) => if n == "tile"@ {
                PRes::Val(
                    (TileM { id, images: imgs, properties: pr, objectgroup: og, animation: anim }, i + 1),
                )
            } else {
                s_tile_go(evs, i + 1, id, imgs, pr, og, anim)
            },
            _ => s_tile_go(evs, i + 1, id, imgs, pr, og, anim),
        }
    }
}

/// A `<tile>` element: `id` is required.
pub open spec fn s_tile(evs: Seq<EvM>, i: int, al: Seq<(Seq<char>, Seq<char>)>) -> PRes<
    (TileM, int),
> {
    match s_req_u32(al, "id"@) {
        None => PRes::Fail(ErrKind::MalformedAttributes),
        Some(id) => s_tile_go(
            evs,
            i,
            id,
            Seq::empty(),
            Map::empty(),
            None,
            None,
        ),
    }
}

/// Parses a `<tile>` element; `start` is the position just after its start
/// tag.
pub(crate) fn parse_tile(evs: &Vec<Event>, start: usize, al: &Vec<(String, String)>) -> (r: Result<
    (Tile, usize),
    TiledError,
>)
    requires
        start <= evs@.len(),
    ensures
        match r {
            Ok(p) => start < p.1 <= evs@.len() && s_tile(evs_m(evs@), start as int, attrs_m(al@))
                == PRes::Val((p.0.m(), p.1 as int)),
            Err(e) => s_tile(evs_m(evs@), start as int, attrs_m(al@)) == PRes::<(
                TileM,
                int,
            )>::Fail(e.kind()),
        },
{
    let id: u32 = match get_u32_attr(al, "id") {
        None => {
            return Err(
                TiledError::MalformedAttributes(
                    "tile must have an id with the correct type".to_owned(),
                ),
            );
        },
        Some(v) => v,
    };
    let mut i: usize = start;
    let mut images: Vec<Image> = Vec::new();
    let mut properties: Properties = Properties::new();
    let mut objectgroup: Option<ObjectGroup> = None;
    let mut animation: Option<Vec<Frame>> = None;
    proof {
        assert(images_m(images@) =~= Seq::<ImageM>::empty());
    }
    loop
        invariant
            start <= i <= evs@.len(),
            s_tile(evs_m(evs@), start as int, attrs_m(al@)) == s_tile_go(
                evs_m(evs@),
                i as int,
                id,
                images_m(images@),
                properties@,
                opt_og_m(objectgroup),
                opt_anim_m(animation),
            ),
        decreases evs@.len() - i,
    {
        if i == evs.len() {
            return Err(TiledError::PrematureEnd("tile element is not closed".to_owned()));
        }
        let ev = &evs[i];
        proof {
            assert(evs_m(evs@)[i as int] == ev_m(evs@[i as int]));
        }
        match ev {
            Event::Start(n, al2) => {
                if str_eq(n.as_str(), "image") {
                    match parse_image(evs, i + 1, al2) {
                        Err(e) => {
                            return Err(e);
                        },
                        Ok((im, j)) => {
                            proof {
                                assert(images_m(images@.push(im)) =~= images_m(images@).push(
                                    im.m(),
                                ));
                            }
                            images.push(im);
                            i = j;
                        },
                    }
                } else if str_eq(n.as_str(), "properties") {
                    match parse_properties(evs, i + 1) {
                        Err(e) => {
                            return Err(e);
                        },
                        Ok((p, j)) => {
                            properties = p;
                            i = j;
                        },
                    }
                } else if str_eq(n.as_str(), "objectgroup") {
                    match parse_object_group(evs, i + 1, al2) {
                        Err(e) => {
                            return Err(e);
                        },
                        Ok((g, j)) => {
                            objectgroup = Some(g);
                            i = j;
                        },
                    }
                } else if str_eq(n.as_str(), "animation") {
                    match parse_animation(evs, i + 1) {
                        Err(e) => {
                            return Err(e);
                        },
                        Ok((a, j)) => {
                            animation = Some(a);
                            i = j;
                        },
                    }
                } else {
                    match skip_subtree(evs, i + 1) {
                        None => {
                            return Err(
                                TiledError::PrematureEnd("tile element is not closed".to_owned()),
                            );
                        },
                        Some(j) => {
                            i = j;
                        },
                    }
                }
            },
            Event::End(n) => {
                if str_eq(n.as_str(), "tile") {
                    return Ok((Tile { id, images, properties, objectgroup, animation }, i + 1));
                }
                i = i + 1;
            },
            _ => {
                i = i + 1;
            },
        }
    }
}

} // verus!
