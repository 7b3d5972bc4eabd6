//! Animation frames: a local tile id shown for a duration in milliseconds.

use vstd::prelude::*;

use crate::error::{ErrKind, PRes, TiledError};
use crate::events::{
    ev_m, evs_m, get_u32_attr, skip_subtree, s_req_u32, s_skip, Event, EvM,
};
use crate::strutil::str_eq;

verus! {

/// One frame of a tile animation.
#[derive(Debug, PartialEq, Eq, Copy, Clone, Structural)]
pub struct Frame {
    /// Local id of the shown tile, within the owning tileset.
    pub tile_id: u32,
    /// Display duration in milliseconds.
    pub duration: u32,
}

/// A `<frame>` element: `tileid` and `duration` are required.
pub open spec fn s_frame(al: Seq<(Seq<char>, Seq<char>)>) -> Option<Frame> {
    match (s_req_u32(al, "tileid"@), s_req_u32(al, "duration"@)) {
        (Some(t), Some(d)) => Some(Frame { tile_id: t, duration: d }),
        _ => None,
    }
}

/// The children of an `<animation>` block, in document order.
pub open spec fn s_animation_go(evs: Seq<EvM>, i: int, acc: Seq<Frame>) -> PRes<(Seq<Frame>, int)>
    decreases evs.len() - i,
{
    if i < 0 || i >= evs.len() {
        PRes::Fail(ErrKind::PrematureEnd)
    } else {
        match evs[i] {
            EvM::Start(n, al) => if n == "frame"@ {
                match s_frame(al) {
                    None => PRes::Fail(ErrKind::MalformedAttributes),
                    Some(f) => match s_skip(evs, i + 1, 1) {
                        None => PRes::Fail(ErrKind::PrematureEnd),
                        Some(j) => if i < j && j <= evs.len() {
                            s_animation_go(evs, j, acc.push(f))
                        } else {
                            PRes::Fail(ErrKind::PrematureEnd)
                        },
                    },
                }
            } else {
                match s_skip(evs, i + 1, 1) {
                    None => PRes::Fail(ErrKind::PrematureEnd),
                    Some(j) => if i < j && j <= evs.len() {
                        s_animation_go(evs, j, acc)
                    } else {
                        PRes::Fail(ErrKind::PrematureEnd)
                    },
                }
            },
            EvM::End(n) => if n == "animation"@ {
                PRes::Val((acc, i + 1))
            } else {
                s_animation_go(evs, i + 1, acc)
            },
            _ => s_animation_go(evs, i + 1, acc),
        }
    }
}

pub open spec fn s_animation(evs: Seq<EvM>, i: int) -> PRes<(Seq<Frame>, int)> {
    s_animation_go(evs, i, Seq::empty())
}

/// Parses an `<animation>` block; `start` is the position just after its
/// start tag.
pub(crate) fn parse_animation(evs: &Vec<Event>, start: usize) -> (r: Result<
    (Vec<Frame>, usize),
    TiledError,
>)
    requires
        start <= evs@.len(),
    ensures
        match r {
            Ok(p) => start < p.1 <= evs@.len() && s_animation(evs_m(evs@), start as int)
                == PRes::Val((p.0@, p.1 as int)),
            Err(e) => s_animation(evs_m(evs@), start as int) == PRes::<(Seq<Frame>, int)>::Fail(
                e.kind(),
            ),
        },
{
    let mut i: usize = start;
    let mut frames: Vec<Frame> = Vec::new();
    loop
        invariant
            start <= i <= evs@.len(),
            s_animation(evs_m(evs@), start as int) == s_animation_go(
                evs_m(evs@),
                i as int,
                frames@,
            ),
        decreases evs@.len() - i,
    {
        if i == evs.len() {
            return Err(TiledError::PrematureEnd("animation block is not closed".to_owned()));
        }
        let ev = &evs[i];
        proof {
            assert(evs_m(evs@)[i as int] == ev_m(evs@[i as int]));
        }
        match ev {
            Event::Start(n, al) => {
                if str_eq(n.as_str(), "frame") {
                    let tile_id: u32 = match get_u32_attr(al, "tileid") {
                        None => {
                            return Err(
                                TiledError::MalformedAttributes(
                                    "frame must have a tileid and duration".to_owned(),
                                ),
                            );
                        },
                        Some(v) => v,
                    };
                    let duration: u32 = match get_u32_attr(al, "duration") {
                        None => {
                            return Err(
                                TiledError::MalformedAttributes(
                                    "frame must have a tileid and duration".to_owned(),
                                ),
                            );
                        },
                        Some(v) => v,
                    };
                    match skip_subtree(evs, i + 1) {
                        None => {
                            return Err(
                                TiledError::PrematureEnd(
                                    "animation block is not closed".to_owned(),
                                ),
                            );
                        },
                        Some(j) => {
                            frames.push(Frame { tile_id, duration });
                            i = j;
                        },
                    }
                } else {
                    match skip_subtree(evs, i + 1) {
                        None => {
                            return Err(
                                TiledError::PrematureEnd(
                                    "animation block is not closed".to_owned(),
                                ),
                            );
                        },
                        Some(j) => {
                            i = j;
                        },
                    }
                }
            },
            Event::End(n) => {
                if str_eq(n.as_str(), "animation") {
                    return Ok((frames, i + 1));
                }
                i = i + 1;
            },
            _ => {
                i = i + 1;
            },
        }
    }
}

} // verus!
