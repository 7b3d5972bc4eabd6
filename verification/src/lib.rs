//! Decoder for the Tiled editor's XML map and tileset documents.
//!
//! A map document is decoded into an in-memory object graph: tilesets, tile
//! layers, image layers, object groups, per-tile metadata, animations and
//! typed custom properties.  The decoder works on plain byte buffers; opening
//! files and loading image pixel data are left to the caller.

use vstd::prelude::*;

pub mod codec;
pub mod error;
pub mod events;
pub mod frame;
pub mod image;
pub mod layer;
pub mod map;
pub mod object;
pub mod properties;
pub mod strutil;
pub mod tile;
pub mod tileset;

pub use crate::error::ErrKind;
pub use crate::error::TiledError;
pub use crate::frame::Frame;
pub use crate::image::Image;
pub use crate::layer::ImageLayer;
pub use crate::layer::Layer;
pub use crate::map::parse_map;
pub use crate::map::TileMap;
pub use crate::object::Object;
pub use crate::object::ObjectGroup;
pub use crate::object::ObjectShape;
pub use crate::properties::Properties;
pub use crate::properties::PropertyValue;
pub use crate::tileset::Tileset;

verus! {

use crate::strutil::{s_hex_byte, hex_byte, str_eq};
use crate::error::PRes;
use crate::tileset::{s_parse_tileset_doc, TilesetM};

/// Parses a buffer containing a standalone tileset document.
///
/// External tilesets carry no `firstgid` attribute themselves; that lives
/// in the map.  The caller passes the first GID it intends to assign; `1`
/// works when GIDs are not used for anything.
pub fn parse_tileset(data: &[u8], first_gid: u32) -> (r: Result<Tileset, TiledError>)
    ensures
        match r {
            Ok(ts) => s_parse_tileset_doc(data@, first_gid) == PRes::Val(ts.m()),
            Err(e) => s_parse_tileset_doc(data@, first_gid) == PRes::<TilesetM>::Fail(e.kind()),
        },
{
    Tileset::new_external(data, first_gid)
}

/// An RGB colour, as written in map documents (`#RRGGBB` or `RRGGBB`).
#[derive(Debug, PartialEq, Eq, Copy, Clone, Structural)]
pub struct Colour {
    pub red: u8,
    pub green: u8,
    pub blue: u8,
}

/// The failure of one attribute-level coercion.
#[derive(Debug, PartialEq, Eq, Copy, Clone, Structural)]
pub enum ParseTileError {
    ColourError,
    OrientationError,
}

/// The colour a string denotes: an optional `#`, then exactly six hex digits.
pub open spec fn s_colour(s: Seq<char>) -> Option<Colour> {
    let t = if s.len() > 0 && s[0] == '#' {
        s.subrange(1, s.len() as int)
    } else {
        s
    };
    if t.len() == 6 {
        match (s_hex_byte(t[0], t[1]), s_hex_byte(t[2], t[3]), s_hex_byte(t[4], t[5])) {
            (Some(r), Some(g), Some(b)) => Some(Colour { red: r, green: g, blue: b }),
            _ => None,
        }
    } else {
        None
    }
}

impl Colour {
    pub fn from_str(s: &str) -> (r: Result<Colour, ParseTileError>)
        ensures
            match r {
                Ok(c) => s_colour(s@) == Some(c),
                Err(e) => s_colour(s@) is None && e == ParseTileError::ColourError,
            },
    {
        let n: usize = s.unicode_len();
        let t: &str = if n > 0 && s.get_char(0) == '#' {
            s.substring_char(1, n)
        } else {
            s
        };
        let m: usize = t.unicode_len();
        if m != 6 {
            return Err(ParseTileError::ColourError);
        }
        let r = hex_byte(t.get_char(0), t.get_char(1));
        let g = hex_byte(t.get_char(2), t.get_char(3));
        let b = hex_byte(t.get_char(4), t.get_char(5));
        match (r, g, b) {
            (Some(red), Some(green), Some(blue)) => Ok(Colour { red, green, blue }),
            _ => Err(ParseTileError::ColourError),
        }
    }
}

/// A map's orientation tag.  Only recorded; no coordinate math depends on it.
#[derive(Debug, PartialEq, Eq, Copy, Clone, Structural)]
pub enum Orientation {
    Orthogonal,
    Isometric,
    Staggered,
    Hexagonal,
}

pub open spec fn s_orientation(s: Seq<char>) -> Option<Orientation> {
    if s == "orthogonal"@ {
        Some(Orientation::Orthogonal)
    } else if s == "isometric"@ {
        Some(Orientation::Isometric)
    } else if s == "staggered"@ {
        Some(Orientation::Staggered)
    } else if s == "hexagonal"@ {
        Some(Orientation::Hexagonal)
    } else {
        None
    }
}

impl Orientation {
    pub fn from_str(s: &str) -> (r: Result<Orientation, ParseTileError>)
        ensures
            match r {
                Ok(o) => s_orientation(s@) == Some(o),
                Err(e) => s_orientation(s@) is None && e == ParseTileError::OrientationError,
            },
    {
        if str_eq(s, "orthogonal") {
            Ok(Orientation::Orthogonal)
        } else if str_eq(s, "isometric") {
            Ok(Orientation::Isometric)
        } else if str_eq(s, "staggered") {
            Ok(Orientation::Staggered)
        } else if str_eq(s, "hexagonal") {
            Ok(Orientation::Hexagonal)
        } else {
            Err(ParseTileError::OrientationError)
        }
    }
}

} // verus!
