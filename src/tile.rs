//! Tiles as the user writes them, and tiles as the layers store them.

use vstd::prelude::*;
use crate::types::{Color, Point2};

verus! {

/// A tile to be written: where it goes, on which depth, which sprite and tint.
#[derive(Clone, Copy, Debug, PartialEq, Eq, Structural)]
pub struct Tile {
    /// The tile point where the tile will exist.
    pub point: Point2,
    /// The depth of the layer that receives the tile. Higher is drawn above.
    pub sprite_order: usize,
    /// The sprite's index in the texture atlas.
    pub sprite_index: usize,
    /// The tint and alpha of the tile. White means no change.
    pub tint: Color,
}

impl Tile {
    /// The tile as a layer stores it.
    pub open spec fn spec_raw(self) -> RawTile {
        RawTile { index: self.sprite_index, color: self.tint }
    }
}

impl Default for Tile {
    fn default() -> (t: Tile)
        ensures
            t == (Tile { point: Point2 { x: 0, y: 0 }, sprite_order: 0, sprite_index: 0, tint: Color::spec_white() }),
    {
        Tile { point: Point2 { x: 0, y: 0 }, sprite_order: 0, sprite_index: 0, tint: Color::white() }
    }
}

/// A tile as stored in a layer: a sprite index and a color.
#[derive(Clone, Copy, Debug, PartialEq, Eq, Structural)]
pub struct RawTile {
    pub index: usize,
    pub color: Color,
}

impl RawTile {
    /// A stored tile is present unless its alpha is zero.
    pub open spec fn is_present(self) -> bool {
        self.color.a != 0
    }

    pub fn index(&self) -> (r: usize)
        ensures
            r == self.index,
    {
        self.index
    }

    pub fn color(&self) -> (r: Color)
        ensures
            r == self.color,
    {
        self.color
    }
}

impl Default for RawTile {
    fn default() -> (t: RawTile)
        ensures
            t == (RawTile { index: 0, color: Color::spec_white() }),
    {
        RawTile { index: 0, color: Color::white() }
    }
}

} // verus!
