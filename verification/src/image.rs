//! The headless image record: a source path with declared dimensions.  Any
//! backend-bound pixel loading happens outside the decoder, after it returns.

use vstd::prelude::*;

use crate::error::{ErrKind, PRes, TiledError};
use crate::events::{
    attrs_m, evs_m, get_attr, get_i32_attr, opt_colour_attr, skip_subtree, s_find_attr,
    s_opt_colour, s_req_i32, s_skip, Event, EvM,
};
use crate::Colour;

verus! {

/// An image reference of a tileset, tile or image layer.
#[derive(Debug, Clone, PartialEq)]
pub struct Image {
    /// The file path of the image, as written in the document.
    pub source: String,
    pub width: i32,
    pub height: i32,
    pub transparent_colour: Option<Colour>,
}

/// The spec-level mirror of an [`Image`].
pub struct ImageM {
    pub source: Seq<char>,
    pub width: i32,
    pub height: i32,
    pub transparent_colour: Option<Colour>,
}

impl Image {
    pub open spec fn m(&self) -> ImageM {
        ImageM {
            source: self.source@,
            width: self.width,
            height: self.height,
            transparent_colour: self.transparent_colour,
        }
    }
}

pub open spec fn images_m(v: Seq<Image>) -> Seq<ImageM> {
    v.map_values(|im: Image| im.m())
}

/// An `<image>` element: `source`, `width` and `height` are required,
/// `trans` is optional; children are skipped whole.
pub open spec fn s_image(evs: Seq<EvM>, i: int, al: Seq<(Seq<char>, Seq<char>)>) -> PRes<
    (ImageM, int),
> {
    match s_find_attr(al, "source"@) {
        None => PRes::Fail(ErrKind::MalformedAttributes),
        Some(src) => match (s_req_i32(al, "width"@), s_req_i32(al, "height"@)) {
            (Some(w), Some(h)) => match s_skip(evs, i, 1) {
                None => PRes::Fail(ErrKind::PrematureEnd),
                Some(j) => PRes::Val(
                    (
                        ImageM {
                            source: src,
                            width: w,
                            height: h,
                            transparent_colour: s_opt_colour(al, "trans"@),
                        },
                        j,
                    ),
                ),
            },
            _ => PRes::Fail(ErrKind::MalformedAttributes),
        },
    }
}

/// Parses an `<image>` element; `start` is the position just after its
/// start tag.
pub(crate) fn parse_image(evs: &Vec<Event>, start: usize, al: &Vec<(String, String)>) -> (r: Result<
    (Image, usize),
    TiledError,
>)
    requires
        start <= evs@.len(),
    ensures
        match r {
            Ok(p) => start < p.1 <= evs@.len() && s_image(evs_m(evs@), start as int, attrs_m(al@))
                == PRes::Val((p.0.m(), p.1 as int)),
            Err(e) => s_image(evs_m(evs@), start as int, attrs_m(al@)) == PRes::<(
                ImageM,
                int,
            )>::Fail(e.kind()),
        },
{
    let source: String = match get_attr(al, "source") {
        None => {
            return Err(
                TiledError::MalformedAttributes(
                    "image must have a source, width and height with correct types".to_owned(),
                ),
            );
        },
        Some(v) => v,
    };
    let width: i32 = match get_i32_attr(al, "width") {
        None => {
            return Err(
                TiledError::MalformedAttributes(
                    "image must have a source, width and height with correct types".to_owned(),
                ),
            );
        },
        Some(v) => v,
    };
    let height: i32 = match get_i32_attr(al, "height") {
        None => {
            return Err(
                TiledError::MalformedAttributes(
                    "image must have a source, width and height with correct types".to_owned(),
                ),
            );
        },
        Some(v) => v,
    };
    let transparent_colour: Option<Colour> = opt_colour_attr(al, "trans");
    match skip_subtree(evs, start) {
        None => Err(TiledError::PrematureEnd("image element is not closed".to_owned())),
        Some(j) => Ok((Image { source, width, height, transparent_colour }, j)),
    }
}

} // verus!
