//! The map document: the root assembler and the GID resolver.

use vstd::prelude::*;

use crate::error::{drop_pos, ErrKind, PRes, TiledError};
use crate::events::{
    attrs_m, ev_m, evs_m, get_attr, get_u32_attr, opt_colour_attr, read_events, skip_subtree,
    s_find_attr, s_opt_colour, s_req_u32, s_skip, xml_events_of, Event, EvM,
};
use crate::layer::{
    parse_image_layer, parse_layer, s_image_layer, s_layer, ImageLayer, ImageLayerM, Layer, LayerM,
};
use crate::object::{parse_object_group, s_object_group, ObjectGroup, ObjectGroupM};
use crate::properties::{parse_properties, props_map, s_properties, Properties, PVm};
use crate::strutil::str_eq;
use crate::tileset::{exts_m, s_tileset_dispatch, tilesets_m, Tileset, TilesetM};
use crate::{s_orientation, Colour, Orientation};

verus! {

/// A decoded map document.
#[derive(Debug, Clone, PartialEq)]
pub struct TileMap {
    pub orientation: Orientation,
    /// Width and height in tiles.
    pub width: u32,
    pub height: u32,
    /// Tile size in pixels.
    pub tile_width: u32,
    pub tile_height: u32,
    pub background_colour: Option<Colour>,
    pub tilesets: Vec<Tileset>,
    pub layers: Vec<Layer>,
    pub image_layers: Vec<ImageLayer>,
    pub object_groups: Vec<ObjectGroup>,
    pub properties: Properties,
}

/// The spec-level mirror of a [`TileMap`].
pub struct MapM {
    pub orientation: Orientation,
    pub width: u32,
    pub height: u32,
    pub tile_width: u32,
    pub tile_height: u32,
    pub background_colour: Option<Colour>,
    pub tilesets: Seq<TilesetM>,
    pub layers: Seq<LayerM>,
    pub image_layers: Seq<ImageLayerM>,
    pub object_groups: Seq<ObjectGroupM>,
    pub properties: Map<Seq<char>, PVm>,
}

pub open spec fn layers_m(v: Seq<Layer>) -> Seq<LayerM> {
    v.map_values(|l: Layer| l.m())
}

pub open spec fn image_layers_m(v: Seq<ImageLayer>) -> Seq<ImageLayerM> {
    v.map_values(|l: ImageLayer| l.m())
}

pub open spec fn object_groups_m(v: Seq<ObjectGroup>) -> Seq<ObjectGroupM> {
    v.map_values(|g: ObjectGroup| g.m())
}

impl TileMap {
    pub open spec fn m(&self) -> MapM {
        MapM {
            orientation: self.orientation,
            width: self.width,
            height: self.height,
            tile_width: self.tile_width,
            tile_height: self.tile_height,
            background_colour: self.background_colour,
            tilesets: tilesets_m(self.tilesets@),
            layers: layers_m(self.layers@),
            image_layers: image_layers_m(self.image_layers@),
            object_groups: object_groups_m(self.object_groups@),
            properties: self.properties@,
        }
    }

    /// The data-model invariant: tilesets ascend by first GID without
    /// overlapping coverage, and every layer's grid is height rows of width
    /// entries.
    pub open spec fn wf(&self) -> bool {
        s_ts_sorted(tilesets_m(self.tilesets@)) && layers_grids_wf(
            layers_m(self.layers@),
            self.width,
            self.height,
        )
    }
}

// ---------------------------------------------------------------------------
// The tileset-order invariant
// ---------------------------------------------------------------------------

/// Consecutive tilesets neither reorder nor overlap: the next first GID
/// lies strictly above this one and above this tileset's coverage.
pub open spec fn ts_gap_ok(tss: Seq<TilesetM>, k: int) -> bool {
    tss[k].first_gid < tss[k + 1].first_gid && tss[k].first_gid + tss[k].tiles.len() <= tss[k
        + 1].first_gid
}

pub open spec fn s_ts_sorted(tss: Seq<TilesetM>) -> bool {
    forall|k: int| 0 <= k < tss.len() - 1 ==> #[trigger] ts_gap_ok(tss, k)
}

fn check_tilesets_sorted(tilesets: &Vec<Tileset>) -> (r: bool)
    ensures
        r == s_ts_sorted(tilesets_m(tilesets@)),
{
    let n: usize = tilesets.len();
    if n <= 1 {
        return true;
    }
    let mut k: usize = 0;
    while k < n - 1
        invariant
            n == tilesets@.len(),
            n >= 1,
            0 <= k <= n - 1,
            forall|l: int| 0 <= l < k ==> #[trigger] ts_gap_ok(tilesets_m(tilesets@), l),
        decreases n - k,
    {
        let a = &tilesets[k];
        let b = &tilesets[k + 1];
        proof {
            assert(tilesets_m(tilesets@)[k as int] == tilesets@[k as int].m());
            assert(tilesets_m(tilesets@)[k as int + 1] == tilesets@[k as int + 1].m());
        }
        if !(a.first_gid < b.first_gid && (a.tiles.len() as u64) <= ((b.first_gid - a.first_gid)
            as u64)) {
            proof {
                assert(!ts_gap_ok(tilesets_m(tilesets@), k as int));
            }
            return false;
        }
        proof {
            assert(ts_gap_ok(tilesets_m(tilesets@), k as int));
        }
        k = k + 1;
    }
    true
}

/// Every layer's grid has exactly `h` rows of exactly `w` entries.
pub open spec fn grid_wf(lm: LayerM, w: u32, h: u32) -> bool {
    lm.tiles.len() == h && forall|t: int| 0 <= t < lm.tiles.len() ==> #[trigger] lm.tiles[t].len()
        == w
}

pub open spec fn layers_grids_wf(ls: Seq<LayerM>, w: u32, h: u32) -> bool {
    forall|l: int| 0 <= l < ls.len() ==> #[trigger] grid_wf(ls[l], w, h)
}

// ---------------------------------------------------------------------------
// GID resolution
// ---------------------------------------------------------------------------

/// Whether `gid` falls into this tileset's coverage:
/// `first_gid <= gid < first_gid + tile count`.
pub open spec fn in_range(ts: TilesetM, gid: u32) -> bool {
    ts.first_gid <= gid && (gid as int) < ts.first_gid + ts.tiles.len()
}

impl TileMap {
    /// Resolves a GID to its owning tileset: the one whose coverage holds
    /// the GID.  GID zero means "no tile" and resolves to nothing, as does
    /// any GID outside every tileset's coverage.
    pub fn resolve_tileset(&self, gid: u32) -> (r: Option<&Tileset>)
        ensures
            match r {
                Some(ts) => gid != 0 && in_range(ts.m(), gid) && (exists|k: int|
                    0 <= k < self.tilesets@.len() && tilesets_m(self.tilesets@)[k] == ts.m()),
                None => gid == 0 || (forall|k: int|
                    0 <= k < self.tilesets@.len() ==> !in_range(
                        #[trigger] tilesets_m(self.tilesets@)[k],
                        gid,
                    )),
            },
    {
        if gid == 0 {
            return None;
        }
        let n: usize = self.tilesets.len();
        let mut k: usize = 0;
        while k < n
            invariant
                gid != 0,
                n == self.tilesets@.len(),
                0 <= k <= n,
                forall|l: int| 0 <= l < k ==> !in_range(
                    #[trigger] tilesets_m(self.tilesets@)[l],
                    gid,
                ),
            decreases n - k,
        {
            let ts = &self.tilesets[k];
            proof {
                assert(tilesets_m(self.tilesets@)[k as int] == self.tilesets@[k as int].m());
            }
            if ts.first_gid <= gid && ((gid - ts.first_gid) as u64) < (ts.tiles.len() as u64) {
                proof {
                    assert(in_range(ts.m(), gid));
                    assert(exists|l: int|
                        0 <= l < self.tilesets@.len() && tilesets_m(self.tilesets@)[l] == ts.m())
                        by {
                        assert(tilesets_m(self.tilesets@)[k as int] == ts.m());
                    }
                }
                return Some(ts);
            }
            proof {
                assert(!in_range(tilesets_m(self.tilesets@)[k as int], gid));
            }
            k = k + 1;
        }
        None
    }
}

/// Under the tileset-order invariant, coverage is disjoint: at most one
/// tileset can hold a GID, so the resolver's answer is the only one.
pub proof fn lemma_resolve_unique(tss: Seq<TilesetM>, gid: u32, k1: int, k2: int)
    requires
        s_ts_sorted(tss),
        0 <= k1 < tss.len(),
        0 <= k2 < tss.len(),
        in_range(tss[k1], gid),
        in_range(tss[k2], gid),
    ensures
        k1 == k2,
    decreases tss.len(),
{
    if k1 != k2 {
        let a = if k1 < k2 {
            k1
        } else {
            k2
        };
        let b = if k1 < k2 {
            k2
        } else {
            k1
        };
        lemma_sorted_monotone(tss, a, b);
        assert(ts_gap_ok(tss, a));
    }
}

proof fn lemma_sorted_monotone(tss: Seq<TilesetM>, a: int, b: int)
    requires
        s_ts_sorted(tss),
        0 <= a < b < tss.len(),
    ensures
        tss[a].first_gid + tss[a].tiles.len() <= tss[b].first_gid,
    decreases b - a,
{
    assert(ts_gap_ok(tss, a));
    if a + 1 < b {
        lemma_sorted_monotone(tss, a + 1, b);
    }
}

// ---------------------------------------------------------------------------
// The root assembler
// ---------------------------------------------------------------------------

/// The children of the `<map>` element.  At its end tag the tileset-order
/// invariant is checked; a document violating it is rejected.
pub open spec fn s_map_go(
    evs: Seq<EvM>,
    i: int,
    o: Orientation,
    w: u32,
    h: u32,
    tw: u32,
    th: u32,
    bg: Option<Colour>,
    exts: Seq<(Seq<char>, Seq<u8>)>,
    tss: Seq<TilesetM>,
    lys: Seq<LayerM>,
    ils: Seq<ImageLayerM>,
    ogs: Seq<ObjectGroupM>,
    pr: Map<Seq<char>, PVm>,
) -> PRes<(MapM, int)>
    decreases evs.len() - i,
{
    if i < 0 || i >= evs.len() {
        PRes::Fail(ErrKind::PrematureEnd)
    } else {
        match evs[i] {
            EvM::Start(n, al) => if n == "tileset"@ {
                match s_tileset_dispatch(evs, i + 1, al, exts) {
                    PRes::Fail(k) => PRes::Fail(k),
                    PRes::Val(p) => if i < p.1 && p.1 <= evs.len() {
                        s_map_go(evs, p.1, o, w, h, tw, th, bg, exts, tss.push(p.0), lys, ils, ogs, pr)
                    } else {
                        PRes::Fail(ErrKind::PrematureEnd)
                    },
                }
            } else if n == "layer"@ {
                match s_layer(evs, i + 1, al, w, h) {
                    PRes::Fail(k) => PRes::Fail(k),
                    PRes::Val(p) => if i < p.1 && p.1 <= evs.len() {
                        s_map_go(evs, p.1, o, w, h, tw, th, bg, exts, tss, lys.push(p.0), ils, ogs, pr)
                    } else {
                        PRes::Fail(ErrKind::PrematureEnd)
                    },
                }
            } else if n == "imagelayer"@ {
                match s_image_layer(evs, i + 1, al) {
                    PRes::Fail(k) => PRes::Fail(k),
                    PRes::Val(p) => if i < p.1 && p.1 <= evs.len() {
                        s_map_go(evs, p.1, o, w, h, tw, th, bg, exts, tss, lys, ils.push(p.0), ogs, pr)
                    } else {
                        PRes::Fail(ErrKind::PrematureEnd)
                    },
                }
            } else if n == "objectgroup"@ {
                match s_object_group(evs, i + 1, al) {
                    PRes::Fail(k) => PRes::Fail(k),
                    PRes::Val(p) => if i < p.1 && p.1 <= evs.len() {
                        s_map_go(evs, p.1, o, w, h, tw, th, bg, exts, tss, lys, ils, ogs.push(p.0), pr)
                    } else {
                        PRes::Fail(ErrKind::PrematureEnd)
                    },
                }
            } else if n == "properties"@ {
                match s_properties(evs, i + 1) {
                    PRes::Fail(k) => PRes::Fail(k),
                    PRes::Val(p) => if i < p.1 && p.1 <= evs.len() {
                        s_map_go(evs, p.1, o, w, h, tw, th, bg, exts, tss, lys, ils, ogs, props_map(p.0))
                    } else {
                        PRes::Fail(ErrKind::PrematureEnd)
                    },
                }
            } else {
                match s_skip(evs, i + 1, 1) {
                    None => PRes::Fail(ErrKind::PrematureEnd),
                    Some(j) => if i < j && j <= evs.len() {
                        s_map_go(evs, j, o, w, h, tw, th, bg, exts, tss, lys, ils, ogs, pr)
                    } else {
                        PRes::Fail(ErrKind::PrematureEnd)
                    },
                }
            },
            EvM::End(n) => if n == "map"@ {
                if s_ts_sorted(tss) {
                    PRes::Val(
                        (
                            MapM {
                                orientation: o,
                                width: w,
                                height: h,
                                tile_width: tw,
                                tile_height: th,
                                background_colour: bg,
                                tilesets: tss,
                                layers: lys,
                                image_layers: ils,
                                object_groups: ogs,
                                properties: pr,
                            },
                            i + 1,
                        ),
                    )
                } else {
                    PRes::Fail(ErrKind::MalformedAttributes)
                }
            } else {
                s_map_go(evs, i + 1, o, w, h, tw, th, bg, exts, tss, lys, ils, ogs, pr)
            },
            _ => s_map_go(evs, i + 1, o, w, h, tw, th, bg, exts, tss, lys, ils, ogs, pr),
        }
    }
}

/// The `<map>` element: orientation and the four dimensions are required,
/// the background colour is optional.
pub open spec fn s_map_body(
    evs: Seq<EvM>,
    i: int,
    al: Seq<(Seq<char>, Seq<char>)>,
    exts: Seq<(Seq<char>, Seq<u8>)>,
) -> PRes<(MapM, int)> {
    match s_find_attr(al, "orientation"@) {
        None => PRes::Fail(ErrKind::MalformedAttributes),
        Some(os) => match s_orientation(os) {
            None => PRes::Fail(ErrKind::MalformedAttributes),
            Some(o) => match (
                s_req_u32(al, "width"@),
                s_req_u32(al, "height"@),
                s_req_u32(al, "tilewidth"@),
                s_req_u32(al, "tileheight"@),
            ) {
                (Some(w), Some(h), Some(tw), Some(th)) => s_map_go(
                    evs,
                    i,
                    o,
                    w,
                    h,
                    tw,
                    th,
                    s_opt_colour(al, "backgroundcolor"@),
                    exts,
                    Seq::empty(),
                    Seq::empty(),
                    Seq::empty(),
                    Seq::empty(),
                    Map::empty(),
                ),
                _ => PRes::Fail(ErrKind::MalformedAttributes),
            },
        },
    }
}

/// Scans the document for the root `<map>` element.
pub open spec fn s_map_scan(
    evs: Seq<EvM>,
    i: int,
    exts: Seq<(Seq<char>, Seq<u8>)>,
) -> PRes<(MapM, int)>
    decreases evs.len() - i,
{
    if i < 0 || i >= evs.len() {
        PRes::Fail(ErrKind::PrematureEnd)
    } else {
        match evs[i] {
            EvM::Start(n, al) => if n == "map"@ {
                s_map_body(evs, i + 1, al, exts)
            } else {
                s_map_scan(evs, i + 1, exts)
            },
            _ => s_map_scan(evs, i + 1, exts),
        }
    }
}

/// What a map document decodes to, given the bytes supplied for external
/// tileset references.
pub open spec fn s_map_doc(data: Seq<u8>, exts: Seq<(Seq<char>, Seq<u8>)>) -> PRes<MapM> {
    match xml_events_of(data) {
        None => PRes::Fail(ErrKind::MalformedXml),
        Some(evs) => drop_pos(s_map_scan(evs, 0, exts)),
    }
}

const MAP_ATTR_MSG: &'static str
    = "map must have an orientation, width, height, tile width and tile height with correct types";

impl TileMap {
    /// Parses the `<map>` element; `start` is the position just after its
    /// start tag.
    pub(crate) fn new(
        evs: &Vec<Event>,
        start: usize,
        al: &Vec<(String, String)>,
        externals: &Vec<(String, Vec<u8>)>,
    ) -> (r: Result<(TileMap, usize), TiledError>)
        requires
            start <= evs@.len(),
        ensures
            match r {
                Ok(p) => start < p.1 <= evs@.len() && s_map_body(
                    evs_m(evs@),
                    start as int,
                    attrs_m(al@),
                    exts_m(externals@),
                ) == PRes::Val((p.0.m(), p.1 as int)) && p.0.wf(),
                Err(e) => s_map_body(
                    evs_m(evs@),
                    start as int,
                    attrs_m(al@),
                    exts_m(externals@),
                ) == PRes::<(MapM, int)>::Fail(e.kind()),
            },
    {
        let orientation: Orientation = match get_attr(al, "orientation") {
            None => {
                return Err(TiledError::MalformedAttributes(MAP_ATTR_MSG.to_owned()));
            },
            Some(v) => match Orientation::from_str(v.as_str()) {
                Err(_) => {
                    return Err(TiledError::MalformedAttributes(MAP_ATTR_MSG.to_owned()));
                },
                Ok(o) => o,
            },
        };
        let width: u32 = match get_u32_attr(al, "width") {
            None => {
                return Err(TiledError::MalformedAttributes(MAP_ATTR_MSG.to_owned()));
            },
            Some(v) => v,
        };
        let height: u32 = match get_u32_attr(al, "height") {
            None => {
                return Err(TiledError::MalformedAttributes(MAP_ATTR_MSG.to_owned()));
            },
            Some(v) => v,
        };
        let tile_width: u32 = match get_u32_attr(al, "tilewidth") {
            None => {
                return Err(TiledError::MalformedAttributes(MAP_ATTR_MSG.to_owned()));
            },
            Some(v) => v,
        };
        let tile_height: u32 = match get_u32_attr(al, "tileheight") {
            None => {
                return Err(TiledError::MalformedAttributes(MAP_ATTR_MSG.to_owned()));
            },
            Some(v) => v,
        };
        let background_colour: Option<Colour> = opt_colour_attr(al, "backgroundcolor");
        let mut i: usize = start;
        let mut tilesets: Vec<Tileset> = Vec::new();
        let mut layers: Vec<Layer> = Vec::new();
        let mut image_layers: Vec<ImageLayer> = Vec::new();
        let mut object_groups: Vec<ObjectGroup> = Vec::new();
        let mut properties: Properties = Properties::new();
        proof {
            assert(tilesets_m(tilesets@) =~= Seq::<TilesetM>::empty());
            assert(layers_m(layers@) =~= Seq::<LayerM>::empty());
            assert(image_layers_m(image_layers@) =~= Seq::<ImageLayerM>::empty());
            assert(object_groups_m(object_groups@) =~= Seq::<ObjectGroupM>::empty());
        }
        loop
            invariant
                start <= i <= evs@.len(),
                s_map_body(evs_m(evs@), start as int, attrs_m(al@), exts_m(externals@))
                    == s_map_go(
                    evs_m(evs@),
                    i as int,
                    orientation,
                    width,
                    height,
                    tile_width,
                    tile_height,
                    background_colour,
                    exts_m(externals@),
                    tilesets_m(tilesets@),
                    layers_m(layers@),
                    image_layers_m(image_layers@),
                    object_groups_m(object_groups@),
                    properties@,
                ),
                layers_grids_wf(layers_m(layers@), width, height),
            decreases evs@.len() - i,
        {
            if i == evs.len() {
                return Err(TiledError::PrematureEnd("map element is not closed".to_owned()));
            }
            let ev = &evs[i];
            proof {
                assert(evs_m(evs@)[i as int] == ev_m(evs@[i as int]));
            }
            match ev {
                Event::Start(n, al2) => {
                    if str_eq(n.as_str(), "tileset") {
                        match Tileset::new(evs, i + 1, al2, externals) {
                            Err(e) => {
                                return Err(e);
                            },
                            Ok((ts, j)) => {
                                proof {
                                    assert(tilesets_m(tilesets@.push(ts)) =~= tilesets_m(
                                        tilesets@,
                                    ).push(ts.m()));
                                }
                                tilesets.push(ts);
                                i = j;
                            },
                        }
                    } else if str_eq(n.as_str(), "layer") {
                        match parse_layer(evs, i + 1, al2, width, height) {
                            Err(e) => {
                                return Err(e);
                            },
                            Ok((l, j)) => {
                                proof {
                                    assert(layers_m(layers@.push(l)) =~= layers_m(layers@).push(
                                        l.m(),
                                    ));
                                    assert(grid_wf(l.m(), width, height));
                                }
                                layers.push(l);
                                i = j;
                            },
                        }
                    } else if str_eq(n.as_str(), "imagelayer") {
                        match parse_image_layer(evs, i + 1, al2) {
                            Err(e) => {
                                return Err(e);
                            },
                            Ok((l, j)) => {
                                proof {
                                    assert(image_layers_m(image_layers@.push(l)) =~= image_layers_m(
                                        image_layers@,
                                    ).push(l.m()));
                                }
                                image_layers.push(l);
                                i = j;
                            },
                        }
                    } else if str_eq(n.as_str(), "objectgroup") {
                        match parse_object_group(evs, i + 1, al2) {
                            Err(e) => {
                                return Err(e);
                            },
                            Ok((g, j)) => {
                                proof {
                                    assert(object_groups_m(object_groups@.push(g))
                                        =~= object_groups_m(object_groups@).push(g.m()));
                                }
                                object_groups.push(g);
                                i = j;
                            },
                        }
                    } else if str_eq(n.as_str(), "properties") {
                        match parse_properties(evs, i + 1) {
                            Err(e) => {
                                return Err(e);
                            },
                            Ok((p, j)) => {
                                properties = p;
                                i = j;
                            },
                        }
                    } else {
                        match skip_subtree(evs, i + 1) {
                            None => {
                                return Err(
                                    TiledError::PrematureEnd(
                                        "map element is not closed".to_owned(),
                                    ),
                                );
                            },
                            Some(j) => {
                                i = j;
                            },
                        }
                    }
                },
                Event::End(n) => {
                    if str_eq(n.as_str(), "map") {
                        if !check_tilesets_sorted(&tilesets) {
                            return Err(
                                TiledError::MalformedAttributes(
                                    "tilesets must ascend by first GID without overlap".to_owned(),
                                ),
                            );
                        }
                        return Ok(
                            (
                                TileMap {
                                    orientation,
                                    width,
                                    height,
                                    tile_width,
                                    tile_height,
                                    background_colour,
                                    tilesets,
                                    layers,
                                    image_layers,
                                    object_groups,
                                    properties,
                                },
                                i + 1,
                            ),
                        );
                    }
                    i = i + 1;
                },
                _ => {
                    i = i + 1;
                },
            }
        }
    }
}

/// Parses a complete map document from its bytes.  External tileset
/// references are resolved against `externals`, pairs of a source path (as
/// written in the document) and that document's bytes; a reference not
/// found there is an unresolved-external-reference error.
pub fn parse_map(data: &[u8], externals: &Vec<(String, Vec<u8>)>) -> (r: Result<TileMap, TiledError>)
    ensures
        match r {
            Ok(m) => s_map_doc(data@, exts_m(externals@)) == PRes::Val(m.m()) && m.wf(),
            Err(e) => s_map_doc(data@, exts_m(externals@)) == PRes::<MapM>::Fail(e.kind()),
        },
{
    let evs: Vec<Event> = match read_events(data) {
        Err(m) => {
            return Err(TiledError::MalformedXml(m));
        },
        Ok(v) => v,
    };
    let mut i: usize = 0;
    loop
        invariant
            0 <= i <= evs@.len(),
            xml_events_of(data@) == Some(evs_m(evs@)),
            s_map_scan(evs_m(evs@), 0, exts_m(externals@)) == s_map_scan(
                evs_m(evs@),
                i as int,
                exts_m(externals@),
            ),
        decreases evs@.len() - i,
    {
        if i == evs.len() {
            return Err(
                TiledError::PrematureEnd("document ended before a map was parsed".to_owned()),
            );
        }
        let ev = &evs[i];
        proof {
            assert(evs_m(evs@)[i as int] == ev_m(evs@[i as int]));
        }
        match ev {
            Event::Start(n, al) => {
                if str_eq(n.as_str(), "map") {
                    return match TileMap::new(&evs, i + 1, al, externals) {
                        Err(e) => Err(e),
                        Ok((m, _)) => Ok(m),
                    };
                }
                i = i + 1;
            },
            _ => {
                i = i + 1;
            },
        }
    }
}

} // verus!
