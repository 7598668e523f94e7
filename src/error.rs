//! The errors reported by layer, chunk and tilemap operations.

use vstd::prelude::*;
use crate::types::Point2;

verus! {

/// A coordinate or a size that a tilemap cannot accept.
#[derive(Clone, Copy, Debug, PartialEq, Eq, Hash, Structural)]
pub enum DimensionError {
    /// The chunk point lies outside the tilemap's configured dimensions.
    OutOfBounds(Point2),
    /// The local tile index lies outside the layer.
    IndexOutOfBounds(usize),
    /// A width or a height is zero.
    Zero,
    /// An area is too large to be held in memory.
    TooLarge,
}

/// The kinds of errors that can occur.
#[derive(Clone, Copy, Debug, PartialEq, Eq, Hash, Structural)]
pub enum ErrorKind {
    /// The coordinate or index is out of bounds, or a size is empty.
    DimensionError(DimensionError),
    /// The layer already exists.
    LayerExists(usize),
    /// The layer does not exist.
    LayerDoesNotExist(usize),
    /// The texture atlas was not set.
    MissingTextureAtlas,
    /// The tile dimensions were not set.
    MissingTileDimensions,
    /// The chunk does not exist.
    MissingChunk,
    /// The chunk already exists.
    ChunkAlreadyExists(Point2),
}

/// The error type for operations on a tilemap.
#[derive(Clone, Debug, PartialEq, Eq)]
pub struct TilemapError(pub Box<ErrorKind>);

impl TilemapError {
    pub fn new(kind: ErrorKind) -> (e: TilemapError)
        ensures
            *e.0 == kind,
    {
        TilemapError(Box::new(kind))
    }

    pub fn kind(&self) -> (k: ErrorKind)
        ensures
            k == *self.0,
    {
        *self.0
    }
}

impl From<ErrorKind> for TilemapError {
    fn from(kind: ErrorKind) -> (e: TilemapError) {
        TilemapError::new(kind)
    }
}

impl vstd::std_specs::convert::FromSpecImpl<ErrorKind> for TilemapError {
    open spec fn obeys_from_spec() -> bool {
        true
    }

    open spec fn from_spec(kind: ErrorKind) -> TilemapError {
        TilemapError(Box::new(kind))
    }
}

/// `r` failed with exactly the error kind `k`.
pub open spec fn fails_with<T>(r: Result<T, TilemapError>, k: ErrorKind) -> bool {
    r is Err && *r->Err_0.0 == k
}

} // verus!
