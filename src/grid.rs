//! Coordinates on the fixed square board, and the two ship orientations.

use vstd::prelude::*;

verus! {

/// Number of cells along each side of the board.
pub const GRID_SIZE: u8 = 10;

/// A cell of the board, column `x` and row `y`.
#[derive(Debug, Clone, Copy, PartialEq, Eq, Structural)]
pub struct Vec2 {
    pub x: u8,
    pub y: u8,
}

/// The axis along which a ship extends from its anchor.
#[derive(Debug, Clone, Copy, PartialEq, Eq, Structural)]
pub enum Rotation {
    /// Extends towards growing `x`.
    Horizontal,
    /// Extends towards growing `y`.
    Vertical,
}

/// `p` lies on the board.
pub open spec fn on_grid(p: Vec2) -> bool {
    p.x < GRID_SIZE && p.y < GRID_SIZE
}

impl Vec2 {
    pub fn new(x: u8, y: u8) -> (r: Self)
        ensures
            r == (Vec2 { x, y }),
    {
        Vec2 { x, y }
    }
}

} // verus!
