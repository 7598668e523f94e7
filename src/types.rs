//! Plain value types shared by the whole crate: grid points, dimensions,
//! colors, grid topologies and render entities.

use vstd::prelude::*;

verus! {

/// An entity of the host's ECS world, carried through opaquely.
#[verifier::external_type_specification]
#[verifier::external_body]
pub struct ExEntity(bevy_ecs::entity::Entity);

/// An integer (x, y) coordinate, used for tile points and chunk points.
#[derive(Clone, Copy, Debug, PartialEq, Eq, Hash, Structural)]
pub struct Point2 {
    pub x: i32,
    pub y: i32,
}

impl Point2 {
    pub fn new(x: i32, y: i32) -> (r: Point2)
        ensures
            r == (Point2 { x, y }),
    {
        Point2 { x, y }
    }
}

/// A width and a height, in tiles, chunks or pixels.
#[derive(Clone, Copy, Debug, PartialEq, Eq, Hash, Structural)]
pub struct Dimension2 {
    pub width: u32,
    pub height: u32,
}

impl Dimension2 {
    pub fn new(width: u32, height: u32) -> (r: Dimension2)
        ensures
            r == (Dimension2 { width, height }),
    {
        Dimension2 { width, height }
    }

    pub open spec fn spec_area(self) -> nat {
        self.width as nat * self.height as nat
    }

    /// The number of cells, `width * height`.
    pub fn area(&self) -> (r: u64)
        ensures
            r == self.spec_area(),
    {
        proof {
            vstd::arithmetic::mul::lemma_mul_upper_bound(
                self.width as int, u32::MAX as int, self.height as int, u32::MAX as int);
        }
        self.width as u64 * self.height as u64
    }
}

/// An RGBA tint with one byte per channel. A zero alpha marks an empty cell.
#[derive(Clone, Copy, Debug, PartialEq, Eq, Hash, Structural)]
pub struct Color {
    pub r: u8,
    pub g: u8,
    pub b: u8,
    pub a: u8,
}

impl Color {
    pub fn rgba(r: u8, g: u8, b: u8, a: u8) -> (c: Color)
        ensures
            c == (Color { r, g, b, a }),
    {
        Color { r, g, b, a }
    }

    pub open spec fn spec_white() -> Color {
        Color { r: 255, g: 255, b: 255, a: 255 }
    }

    pub open spec fn spec_transparent() -> Color {
        Color { r: 0, g: 0, b: 0, a: 0 }
    }

    /// Opaque white: no change to the sprite's own colors.
    pub fn white() -> (c: Color)
        ensures
            c == Color::spec_white(),
    {
        Color { r: 255, g: 255, b: 255, a: 255 }
    }

    /// Fully transparent black, the color of an empty cell.
    pub fn transparent() -> (c: Color)
        ensures
            c == Color::spec_transparent(),
    {
        Color { r: 0, g: 0, b: 0, a: 0 }
    }
}

/// The shape of the grid. It only affects coordinate math of the renderer.
#[derive(Clone, Copy, Debug, PartialEq, Eq, Hash, Structural)]
pub enum GridTopology {
    Square,
    HexX,
    HexY,
    HexEvenRows,
    HexOddRows,
    HexEvenCols,
    HexOddCols,
}

} // verus!
