//! Coordinates, alive cells and the playfield bounds.

use vstd::prelude::*;

verus! {

/// Width of the visible playfield.
pub const WIDTH: i32 = 192;

/// Height of the visible playfield.
pub const HEIGHT: i32 = 108;

/// How far past the visible playfield a cell may live before it is culled.
pub const MARGIN: i32 = 5;

/// Smallest x at which an alive cell is kept.
pub const MIN_X: i32 = -5;

/// Smallest y at which an alive cell is kept.
pub const MIN_Y: i32 = -5;

/// Largest x at which an alive cell is kept.
pub const MAX_X: i32 = 197;

/// Largest y at which an alive cell is kept.
pub const MAX_Y: i32 = 113;

/// A coordinate on the board.  Two cells are the same cell exactly when their
/// coordinates are equal.
#[derive(Clone, Copy, Debug, PartialEq, Eq, Structural, Hash)]
pub struct Cell {
    pub x: i32,
    pub y: i32,
}

/// A living cell: a coordinate together with the player that owns it.
#[derive(Clone, Copy, Debug, PartialEq, Eq, Structural, Hash)]
pub struct AliveCell {
    pub x: i32,
    pub y: i32,
    pub player_id: u32,
}

impl Cell {
    /// Whether the cell lies inside the culling rectangle
    /// `[MIN_X, MAX_X] x [MIN_Y, MAX_Y]`.
    pub open spec fn within_bounds(self) -> bool {
        MIN_X <= self.x <= MAX_X && MIN_Y <= self.y <= MAX_Y
    }

    /// Tests whether the cell lies inside the culling rectangle.
    pub fn in_bounds(self) -> (inside: bool)
        ensures
            inside == self.within_bounds(),
    {
        MIN_X <= self.x && self.x <= MAX_X && MIN_Y <= self.y && self.y <= MAX_Y
    }

    /// The cell, marked alive under `player_id`.
    pub fn owned_by(self, player_id: u32) -> (alive: AliveCell)
        ensures
            alive.x == self.x,
            alive.y == self.y,
            alive.player_id == player_id,
    {
        AliveCell { x: self.x, y: self.y, player_id }
    }
}

impl Cell {
    /// The cell as one integer.  The packing is one to one between cells and
    /// `u64` values, and orders cells by `x`, then by `y`.
    pub open spec fn packed(self) -> u64 {
        ((self.x + 0x8000_0000) * 0x1_0000_0000 + (self.y + 0x8000_0000)) as u64
    }

    /// The cell that `key` stands for.
    pub open spec fn unpacked(key: u64) -> Cell {
        Cell {
            x: (key / 0x1_0000_0000 - 0x8000_0000) as i32,
            y: (key % 0x1_0000_0000 - 0x8000_0000) as i32,
        }
    }

    /// Packing and unpacking undo each other.
    pub proof fn packing_is_one_to_one(self, key: u64)
        ensures
            Cell::unpacked(self.packed()) == self,
            Cell::unpacked(key).packed() == key,
    {
    }

    /// Packs the cell into one integer.
    pub fn key(self) -> (key: u64)
        ensures
            key == self.packed(),
    {
        let high: u64 = (self.x as i64 + 0x8000_0000) as u64;
        let low: u64 = (self.y as i64 + 0x8000_0000) as u64;
        high * 0x1_0000_0000 + low
    }

    /// Unpacks the cell that `key` stands for.
    pub fn from_key(key: u64) -> (cell: Cell)
        ensures
            cell == Cell::unpacked(key),
    {
        let high: i64 = (key / 0x1_0000_0000) as i64;
        let low: i64 = (key % 0x1_0000_0000) as i64;
        Cell { x: (high - 0x8000_0000) as i32, y: (low - 0x8000_0000) as i32 }
    }
}

impl AliveCell {
    /// The coordinate of the cell, without its owner.
    pub open spec fn position(self) -> Cell {
        Cell { x: self.x, y: self.y }
    }

    /// The coordinate of the cell, without its owner.
    pub fn cell(self) -> (c: Cell)
        ensures
            c == self.position(),
    {
        Cell { x: self.x, y: self.y }
    }
}

/// The playfield constants fit together: the culling rectangle is the visible
/// playfield widened by the margin on every side.
pub proof fn bounds_are_playfield_plus_margin()
    ensures
        MIN_X == -MARGIN,
        MIN_Y == -MARGIN,
        MAX_X == WIDTH + MARGIN,
        MAX_Y == HEIGHT + MARGIN,
{
}

} // verus!
