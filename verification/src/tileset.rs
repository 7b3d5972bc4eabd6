//! Tilesets: inline definitions, external references, and standalone
//! tileset documents.
//!
//! A `<tileset>` element inside a map either defines the tileset inline or
//! carries a `source` attribute referencing a standalone document.  The
//! branch is decided by the presence of `source`, so a malformed inline
//! definition is reported as such and never masked by a failed external
//! lookup.  Both paths share one definition parser, which is what makes the
//! inline/external agreement law below a statement about all documents.

use vstd::prelude::*;

use crate::error::{drop_pos, ErrKind, PRes, TiledError};
use crate::events::{
    attrs_m, ev_m, evs_m, get_attr, get_u32_attr, opt_u32_attr, read_events, skip_subtree,
    s_find_attr, s_opt_u32_or, s_req_u32, s_skip, xml_events_of, Event, EvM,
};
use crate::image::{images_m, parse_image, s_image, Image, ImageM};
use crate::strutil::str_eq;
use crate::tile::{parse_tile, s_tile, tiles_m, Tile, TileM};

verus! {

/// A tileset, usually one tilesheet image.
#[derive(Debug, Clone, PartialEq)]
pub struct Tileset {
    /// The GID of the first tile of this tileset.
    pub first_gid: u32,
    pub name: String,
    pub tile_width: u32,
    pub tile_height: u32,
    pub spacing: u32,
    pub margin: u32,
    /// A tileset can carry several images; usually there is one.
    pub images: Vec<Image>,
    pub tiles: Vec<Tile>,
}

/// The spec-level mirror of a [`Tileset`].
pub struct TilesetM {
    pub first_gid: u32,
    pub name: Seq<char>,
    pub tile_width: u32,
    pub tile_height: u32,
    pub spacing: u32,
    pub margin: u32,
    pub images: Seq<ImageM>,
    pub tiles: Seq<TileM>,
}

impl Tileset {
    pub open spec fn m(&self) -> TilesetM {
        TilesetM {
            first_gid: self.first_gid,
            name: self.name@,
            tile_width: self.tile_width,
            tile_height: self.tile_height,
            spacing: self.spacing,
            margin: self.margin,
            images: images_m(self.images@),
            tiles: tiles_m(self.tiles@),
        }
    }
}

pub open spec fn tilesets_m(v: Seq<Tileset>) -> Seq<TilesetM> {
    v.map_values(|t: Tileset| t.m())
}

// ---------------------------------------------------------------------------
// The shared definition parser
// ---------------------------------------------------------------------------

/// The `<image>` and `<tile>` children of a tileset definition.
pub open spec fn s_ts_children(
    evs: Seq<EvM>,
    i: int,
    imgs: Seq<ImageM>,
    tls: Seq<TileM>,
) -> PRes<((Seq<ImageM>, Seq<TileM>), int)>
    decreases evs.len() - i,
{
    if i < 0 || i >= evs.len() {
        PRes::Fail(ErrKind::PrematureEnd)
    } else {
        match evs[i] {
            EvM::Start(n, al) => if n == "image"@ {
                match s_image(evs, i + 1, al) {
                    PRes::Fail(k) => PRes::Fail(k),
                    PRes::Val(p) => if i < p.1 && p.1 <= evs.len() {
                        s_ts_children(evs, p.1, imgs.push(p.0), tls)
                    } else {
                        PRes::Fail(ErrKind::PrematureEnd)
                    },
                }
            } else if n == "tile"@ {
                match s_tile(evs, i + 1, al) {
                    PRes::Fail(k) => PRes::Fail(k),
                    PRes::Val(p) => if i < p.1 && p.1 <= evs.len() {
                        s_ts_children(evs, p.1, imgs, tls.push(p.0))
                    } else {
                        PRes::Fail(ErrKind::PrematureEnd)
                    },
                }
            } else {
                match s_skip(evs, i + 1, 1) {
                    None => PRes::Fail(ErrKind::PrematureEnd),
                    Some(j) => if i < j && j <= evs.len() {
                        s_ts_children(evs, j, imgs, tls)
                    } else {
                        PRes::Fail(ErrKind::PrematureEnd)
                    },
                }
            },
            EvM::End(n) => if n == "tileset"@ {
                PRes::Val(((imgs, tls), i + 1))
            } else {
                s_ts_children(evs, i + 1, imgs, tls)
            },
            _ => s_ts_children(evs, i + 1, imgs, tls),
        }
    }
}

/// A tileset definition with an already-known first GID: `name`,
/// `tilewidth` and `tileheight` are required, `spacing` and `margin`
/// default to zero; then the children.
pub open spec fn s_tileset_body(
    g: u32,
    al: Seq<(Seq<char>, Seq<char>)>,
    evs: Seq<EvM>,
    i: int,
) -> PRes<(TilesetM, int)> {
    match (s_find_attr(al, "name"@), s_req_u32(al, "tilewidth"@), s_req_u32(al, "tileheight"@)) {
        (Some(name), Some(tw), Some(th)) => match s_ts_children(evs, i, Seq::empty(), Seq::empty()) {
            PRes::Fail(k) => PRes::Fail(k),
            PRes::Val(p) => PRes::Val(
                (
                    TilesetM {
                        first_gid: g,
                        name,
                        tile_width: tw,
                        tile_height: th,
                        spacing: s_opt_u32_or(al, "spacing"@, 0),
                        margin: s_opt_u32_or(al, "margin"@, 0),
                        images: p.0.0,
                        tiles: p.0.1,
                    },
                    p.1,
                ),
            ),
        },
        _ => PRes::Fail(ErrKind::MalformedAttributes),
    }
}

/// An inline definition: `firstgid` is read from the same attribute list.
pub open spec fn s_new_internal(evs: Seq<EvM>, i: int, al: Seq<(Seq<char>, Seq<char>)>) -> PRes<
    (TilesetM, int),
> {
    match s_req_u32(al, "firstgid"@) {
        None => PRes::Fail(ErrKind::MalformedAttributes),
        Some(g) => s_tileset_body(g, al, evs, i),
    }
}

/// A standalone tileset document: scan forward to the root `<tileset>`
/// element; reaching the end of the document first is a premature end.
pub open spec fn s_external_doc(evs: Seq<EvM>, i: int, g: u32) -> PRes<(TilesetM, int)>
    decreases evs.len() - i,
{
    if i < 0 || i >= evs.len() {
        PRes::Fail(ErrKind::PrematureEnd)
    } else {
        match evs[i] {
            EvM::Start(n, al) => if n == "tileset"@ {
                s_tileset_body(g, al, evs, i + 1)
            } else {
                s_external_doc(evs, i + 1, g)
            },
            _ => s_external_doc(evs, i + 1, g),
        }
    }
}

/// What a standalone tileset document decodes to, given the first GID the
/// caller assigns.
pub open spec fn s_parse_tileset_doc(data: Seq<u8>, g: u32) -> PRes<TilesetM> {
    match xml_events_of(data) {
        None => PRes::Fail(ErrKind::MalformedXml),
        Some(evs) => drop_pos(s_external_doc(evs, 0, g)),
    }
}

// ---------------------------------------------------------------------------
// External references supplied by the caller
// ---------------------------------------------------------------------------

pub open spec fn exts_m(l: Seq<(String, Vec<u8>)>) -> Seq<(Seq<char>, Seq<u8>)> {
    l.map_values(|p: (String, Vec<u8>)| (p.0@, p.1@))
}

/// The bytes supplied for an external document path; first match wins.
pub open spec fn s_lookup_ext(exts: Seq<(Seq<char>, Seq<u8>)>, name: Seq<char>) -> Option<Seq<u8>>
    decreases exts.len(),
{
    if exts.len() == 0 {
        None
    } else if exts[0].0 == name {
        Some(exts[0].1)
    } else {
        s_lookup_ext(exts.drop_first(), name)
    }
}

fn lookup_external<'a>(externals: &'a Vec<(String, Vec<u8>)>, i: usize, name: &str) -> (r: Option<
    &'a Vec<u8>,
>)
    requires
        i <= externals@.len(),
    ensures
        match r {
            Some(v) => s_lookup_ext(exts_m(externals@).skip(i as int), name@) == Some(v@),
            None => s_lookup_ext(exts_m(externals@).skip(i as int), name@) is None,
        },
    decreases externals@.len() - i,
{
    if i == externals.len() {
        proof {
            assert(exts_m(externals@).skip(i as int) =~= Seq::<(Seq<char>, Seq<u8>)>::empty());
        }
        None
    } else {
        let p = &externals[i];
        proof {
            assert(exts_m(externals@)[i as int] == (externals@[i as int].0@, externals@[i as int].1@));
            assert(exts_m(externals@).skip(i as int)[0] == exts_m(externals@)[i as int]);
            assert(exts_m(externals@).skip(i as int).drop_first() =~= exts_m(externals@).skip(
                i as int + 1,
            ));
        }
        if str_eq(p.0.as_str(), name) {
            Some(&p.1)
        } else {
            lookup_external(externals, i + 1, name)
        }
    }
}

/// A `<tileset>` element of a map: an external reference when `source` is
/// present, an inline definition otherwise.  The `firstgid` of the
/// referencing element overrides anything in the external document.
pub open spec fn s_tileset_dispatch(
    evs: Seq<EvM>,
    i: int,
    al: Seq<(Seq<char>, Seq<char>)>,
    exts: Seq<(Seq<char>, Seq<u8>)>,
) -> PRes<(TilesetM, int)> {
    match s_find_attr(al, "source"@) {
        None => s_new_internal(evs, i, al),
        Some(src) => match s_req_u32(al, "firstgid"@) {
            None => PRes::Fail(ErrKind::MalformedAttributes),
            Some(g) => match s_lookup_ext(exts, src) {
                None => PRes::Fail(ErrKind::UnresolvedExternalReference),
                Some(bytes) => match xml_events_of(bytes) {
                    None => PRes::Fail(ErrKind::MalformedXml),
                    Some(sub) => match s_external_doc(sub, 0, g) {
                        PRes::Fail(k) => PRes::Fail(k),
                        PRes::Val(p) => match s_skip(evs, i, 1) {
                            None => PRes::Fail(ErrKind::PrematureEnd),
                            Some(j) => PRes::Val((p.0, j)),
                        },
                    },
                },
            },
        },
    }
}

// ---------------------------------------------------------------------------
// Laws
// ---------------------------------------------------------------------------

/// A map whose tileset is declared inline and an external document defining
/// the same tileset yield structurally equal tilesets: when the inline
/// attribute list carries `firstgid` parsing to `g`, the defining
/// attributes agree, and the children parse alike, the inline parse and the
/// external-definition parse with first GID `g` agree exactly.
pub proof fn lemma_inline_external_agree(
    evs1: Seq<EvM>,
    i1: int,
    al1: Seq<(Seq<char>, Seq<char>)>,
    evs2: Seq<EvM>,
    i2: int,
    al2: Seq<(Seq<char>, Seq<char>)>,
    g: u32,
)
    requires
        s_req_u32(al1, "firstgid"@) == Some(g),
        s_find_attr(al1, "name"@) == s_find_attr(al2, "name"@),
        s_req_u32(al1, "tilewidth"@) == s_req_u32(al2, "tilewidth"@),
        s_req_u32(al1, "tileheight"@) == s_req_u32(al2, "tileheight"@),
        s_opt_u32_or(al1, "spacing"@, 0) == s_opt_u32_or(al2, "spacing"@, 0),
        s_opt_u32_or(al1, "margin"@, 0) == s_opt_u32_or(al2, "margin"@, 0),
        drop_pos(s_ts_children(evs1, i1, Seq::empty(), Seq::empty())) == drop_pos(
            s_ts_children(evs2, i2, Seq::empty(), Seq::empty()),
        ),
    ensures
        drop_pos(s_new_internal(evs1, i1, al1)) == drop_pos(s_tileset_body(g, al2, evs2, i2)),
{
}

/// A tileset definition missing `tilewidth` yields `MalformedAttributes`
/// and produces no tileset value, inline or external.
pub proof fn lemma_missing_tilewidth_rejected(
    evs: Seq<EvM>,
    i: int,
    al: Seq<(Seq<char>, Seq<char>)>,
    g: u32,
)
    requires
        s_find_attr(al, "tilewidth"@) is None,
    ensures
        s_tileset_body(g, al, evs, i) == PRes::<(TilesetM, int)>::Fail(
            ErrKind::MalformedAttributes,
        ),
        s_new_internal(evs, i, al) == PRes::<(TilesetM, int)>::Fail(ErrKind::MalformedAttributes),
{
}

// ---------------------------------------------------------------------------
// Executable parsers
// ---------------------------------------------------------------------------

const TILESET_ATTR_MSG: &'static str
    = "tileset must have a firstgid, name, tile width and height with correct types";

fn ts_children(evs: &Vec<Event>, start: usize) -> (r: Result<
    ((Vec<Image>, Vec<Tile>), usize),
    TiledError,
>)
    requires
        start <= evs@.len(),
    ensures
        match r {
            Ok(p) => start < p.1 <= evs@.len() && s_ts_children(
                evs_m(evs@),
                start as int,
                Seq::empty(),
                Seq::empty(),
            ) == PRes::Val(((images_m(p.0.0@), tiles_m(p.0.1@)), p.1 as int)),
            Err(e) => s_ts_children(evs_m(evs@), start as int, Seq::empty(), Seq::empty())
                == PRes::<((Seq<ImageM>, Seq<TileM>), int)>::Fail(e.kind()),
        },
{
    let mut i: usize = start;
    let mut images: Vec<Image> = Vec::new();
    let mut tiles: Vec<Tile> = Vec::new();
    proof {
        assert(images_m(images@) =~= Seq::<ImageM>::empty());
        assert(tiles_m(tiles@) =~= Seq::<TileM>::empty());
    }
    loop
        invariant
            start <= i <= evs@.len(),
            s_ts_children(evs_m(evs@), start as int, Seq::empty(), Seq::empty())
                == s_ts_children(evs_m(evs@), i as int, images_m(images@), tiles_m(tiles@)),
        decreases evs@.len() - i,
    {
        if i == evs.len() {
            return Err(TiledError::PrematureEnd("tileset element is not closed".to_owned()));
        }
        let ev = &evs[i];
        proof {
            assert(evs_m(evs@)[i as int] == ev_m(evs@[i as int]));
        }
        match ev {
            Event::Start(n, al) => {
                if str_eq(n.as_str(), "image") {
                    match parse_image(evs, i + 1, al) {
                        Err(e) => {
                            return Err(e);
                        },
                        Ok((im, j)) => {
                            proof {
                                assert(images_m(images@.push(im)) =~= images_m(images@).push(
                                    im.m(),
                                ));
                            }
                            images.push(im);
                            i = j;
                        },
                    }
                } else if str_eq(n.as_str(), "tile") {
                    match parse_tile(evs, i + 1, al) {
                        Err(e) => {
                            return Err(e);
                        },
                        Ok((t, j)) => {
                            proof {
                                assert(tiles_m(tiles@.push(t)) =~= tiles_m(tiles@).push(t.m()));
                            }
                            tiles.push(t);
                            i = j;
                        },
                    }
                } else {
                    match skip_subtree(evs, i + 1) {
                        None => {
                            return Err(
                                TiledError::PrematureEnd(
                                    "tileset element is not closed".to_owned(),
                                ),
                            );
                        },
                        Some(j) => {
                            i = j;
                        },
                    }
                }
            },
            Event::End(n) => {
                if str_eq(n.as_str(), "tileset") {
                    return Ok(((images, tiles), i + 1));
                }
                i = i + 1;
            },
            _ => {
                i = i + 1;
            },
        }
    }
}

impl Tileset {
    /// Parses a tileset definition whose first GID is already known;
    /// `start` is the position just after the `<tileset>` start tag.
    pub(crate) fn parse_external_tileset(
        first_gid: u32,
        evs: &Vec<Event>,
        start: usize,
        al: &Vec<(String, String)>,
    ) -> (r: Result<(Tileset, usize), TiledError>)
        requires
            start <= evs@.len(),
        ensures
            match r {
                Ok(p) => start < p.1 <= evs@.len() && s_tileset_body(
                    first_gid,
                    attrs_m(al@),
                    evs_m(evs@),
                    start as int,
                ) == PRes::Val((p.0.m(), p.1 as int)),
                Err(e) => s_tileset_body(first_gid, attrs_m(al@), evs_m(evs@), start as int)
                    == PRes::<(TilesetM, int)>::Fail(e.kind()),
            },
    {
        let name: String = match get_attr(al, "name") {
            None => {
                return Err(TiledError::MalformedAttributes(TILESET_ATTR_MSG.to_owned()));
            },
            Some(v) => v,
        };
        let tile_width: u32 = match get_u32_attr(al, "tilewidth") {
            None => {
                return Err(TiledError::MalformedAttributes(TILESET_ATTR_MSG.to_owned()));
            },
            Some(v) => v,
        };
        let tile_height: u32 = match get_u32_attr(al, "tileheight") {
            None => {
                return Err(TiledError::MalformedAttributes(TILESET_ATTR_MSG.to_owned()));
            },
            Some(v) => v,
        };
        let spacing: u32 = opt_u32_attr(al, "spacing", 0);
        let margin: u32 = opt_u32_attr(al, "margin", 0);
        match ts_children(evs, start) {
            Err(e) => Err(e),
            Ok(((images, tiles), j)) => Ok(
                (
                    Tileset {
                        first_gid,
                        name,
                        tile_width,
                        tile_height,
                        spacing,
                        margin,
                        images,
                        tiles,
                    },
                    j,
                ),
            ),
        }
    }

    /// Parses an inline tileset definition of a map document.
    pub(crate) fn new_internal(evs: &Vec<Event>, start: usize, al: &Vec<(String, String)>) -> (r:
        Result<(Tileset, usize), TiledError>)
        requires
            start <= evs@.len(),
        ensures
            match r {
                Ok(p) => start < p.1 <= evs@.len() && s_new_internal(
                    evs_m(evs@),
                    start as int,
                    attrs_m(al@),
                ) == PRes::Val((p.0.m(), p.1 as int)),
                Err(e) => s_new_internal(evs_m(evs@), start as int, attrs_m(al@)) == PRes::<(
                    TilesetM,
                    int,
                )>::Fail(e.kind()),
            },
    {
        let first_gid: u32 = match get_u32_attr(al, "firstgid") {
            None => {
                return Err(TiledError::MalformedAttributes(TILESET_ATTR_MSG.to_owned()));
            },
            Some(v) => v,
        };
        Tileset::parse_external_tileset(first_gid, evs, start, al)
    }

    /// Parses a standalone tileset document, given the first GID the caller
    /// assigns to it.
    pub fn new_external(data: &[u8], first_gid: u32) -> (r: Result<Tileset, TiledError>)
        ensures
            match r {
                Ok(ts) => s_parse_tileset_doc(data@, first_gid) == PRes::Val(ts.m()),
                Err(e) => s_parse_tileset_doc(data@, first_gid) == PRes::<TilesetM>::Fail(
                    e.kind(),
                ),
            },
    {
        match read_events(data) {
            Err(m) => Err(TiledError::MalformedXml(m)),
            Ok(evs) => match external_doc_scan(&evs, first_gid) {
                Err(e) => Err(e),
                Ok(ts) => Ok(ts),
            },
        }
    }

    /// Parses a `<tileset>` element of a map, inline or by external
    /// reference; `start` is the position just after its start tag.
    pub(crate) fn new(
        evs: &Vec<Event>,
        start: usize,
        al: &Vec<(String, String)>,
        externals: &Vec<(String, Vec<u8>)>,
    ) -> (r: Result<(Tileset, usize), TiledError>)
        requires
            start <= evs@.len(),
        ensures
            match r {
                Ok(p) => start < p.1 <= evs@.len() && s_tileset_dispatch(
                    evs_m(evs@),
                    start as int,
                    attrs_m(al@),
                    exts_m(externals@),
                ) == PRes::Val((p.0.m(), p.1 as int)),
                Err(e) => s_tileset_dispatch(
                    evs_m(evs@),
                    start as int,
                    attrs_m(al@),
                    exts_m(externals@),
                ) == PRes::<(TilesetM, int)>::Fail(e.kind()),
            },
    {
        let src: String = match get_attr(al, "source") {
            None => {
                return Tileset::new_internal(evs, start, al);
            },
            Some(v) => v,
        };
        let first_gid: u32 = match get_u32_attr(al, "firstgid") {
            None => {
                return Err(TiledError::MalformedAttributes(TILESET_ATTR_MSG.to_owned()));
            },
            Some(v) => v,
        };
        proof {
            assert(exts_m(externals@).skip(0) =~= exts_m(externals@));
        }
        let bytes: &Vec<u8> = match lookup_external(externals, 0, src.as_str()) {
            None => {
                return Err(TiledError::UnresolvedExternalReference(src));
            },
            Some(b) => b,
        };
        let ts: Tileset = match read_events(bytes.as_slice()) {
            Err(m) => {
                return Err(TiledError::MalformedXml(m));
            },
            Ok(sub) => match external_doc_scan(&sub, first_gid) {
                Err(e) => {
                    return Err(e);
                },
                Ok(ts) => ts,
            },
        };
        match skip_subtree(evs, start) {
            None => Err(TiledError::PrematureEnd("tileset element is not closed".to_owned())),
            Some(j) => Ok((ts, j)),
        }
    }
}

/// Scans a standalone tileset document's events for the root `<tileset>`.
fn external_doc_scan(evs: &Vec<Event>, first_gid: u32) -> (r: Result<Tileset, TiledError>)
    ensures
        match r {
            Ok(ts) => drop_pos(s_external_doc(evs_m(evs@), 0, first_gid)) == PRes::Val(ts.m()),
            Err(e) => drop_pos(s_external_doc(evs_m(evs@), 0, first_gid)) == PRes::<
                TilesetM,
            >::Fail(e.kind()),
        },
{
    let mut i: usize = 0;
    loop
        invariant
            0 <= i <= evs@.len(),
            s_external_doc(evs_m(evs@), 0, first_gid) == s_external_doc(
                evs_m(evs@),
                i as int,
                first_gid,
            ),
        decreases evs@.len() - i,
    {
        if i == evs.len() {
            return Err(
                TiledError::PrematureEnd(
                    "tileset document ended before a tileset was parsed".to_owned(),
                ),
            );
        }
        let ev = &evs[i];
        proof {
            assert(evs_m(evs@)[i as int] == ev_m(evs@[i as int]));
        }
        match ev {
            Event::Start(n, al) => {
                if str_eq(n.as_str(), "tileset") {
                    return match Tileset::parse_external_tileset(first_gid, evs, i + 1, al) {
                        Err(e) => Err(e),
                        Ok((ts, _)) => Ok(ts),
                    };
                }
                i = i + 1;
            },
            _ => {
                i = i + 1;
            },
        }
    }
}

} // verus!
