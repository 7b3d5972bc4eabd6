//! Error types.  Every failure of the decoder is one of six kinds; messages
//! are human-readable and not part of any contract, so contracts speak of
//! `ErrKind` through `TiledError::kind`.

use vstd::prelude::*;

verus! {

/// The kind of a decoding failure, without its message.
#[derive(Debug, PartialEq, Eq, Copy, Clone, Structural)]
pub enum ErrKind {
    /// A required attribute is missing or cannot be coerced.
    MalformedAttributes,
    /// The underlying markup is not well-formed.
    MalformedXml,
    /// The document ended before an expected closing structure.
    PrematureEnd,
    /// A tile payload is invalid: bad base64, an unparseable token, or an
    /// element count that does not match the layer's dimensions.
    InvalidEncodedPayload,
    /// A compressed tile payload cannot be decompressed.
    DecompressionFailure,
    /// An externally referenced tileset document was not supplied.
    UnresolvedExternalReference,
}

/// A decoding failure with its human-readable message.
#[derive(Debug, PartialEq, Eq, Clone)]
pub enum TiledError {
    MalformedAttributes(String),
    MalformedXml(String),
    PrematureEnd(String),
    InvalidEncodedPayload(String),
    DecompressionFailure(String),
    UnresolvedExternalReference(String),
}

impl TiledError {
    pub open spec fn kind(&self) -> ErrKind {
        match self {
            TiledError::MalformedAttributes(_) => ErrKind::MalformedAttributes,
            TiledError::MalformedXml(_) => ErrKind::MalformedXml,
            TiledError::PrematureEnd(_) => ErrKind::PrematureEnd,
            TiledError::InvalidEncodedPayload(_) => ErrKind::InvalidEncodedPayload,
            TiledError::DecompressionFailure(_) => ErrKind::DecompressionFailure,
            TiledError::UnresolvedExternalReference(_) => ErrKind::UnresolvedExternalReference,
        }
    }
}

/// The outcome of one parsing step: a value, or a failure of some kind.
///
/// Positional parsers instantiate `T` with a pair of a model value and the
/// event index just past what was consumed.
pub enum PRes<T> {
    Val(T),
    Fail(ErrKind),
}

/// Forgets the consumed-position part of a positional parse outcome.
pub open spec fn drop_pos<T>(r: PRes<(T, int)>) -> PRes<T> {
    match r {
        PRes::Val(p) => PRes::Val(p.0),
        PRes::Fail(k) => PRes::Fail(k),
    }
}

} // verus!
