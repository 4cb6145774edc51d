//! The board as a mathematical object, and the rule that advances it.
//!
//! A [`Board`] maps each alive coordinate to its owner.  Everything here is
//! specification: the executable code elsewhere in the crate is proved against
//! these definitions.

use vstd::prelude::*;
use crate::cell::Cell;

verus! {

/// The alive cells of one generation: coordinate to owning player.
pub type Board = Map<Cell, u32>;

/// Whether `(x, y)` is a coordinate that a cell can have.
pub open spec fn on_grid(x: int, y: int) -> bool {
    i32::MIN <= x <= i32::MAX && i32::MIN <= y <= i32::MAX
}

/// The cell at `(x, y)`, for a coordinate on the grid.
pub open spec fn cell_at(x: int, y: int) -> Cell
    recommends
        on_grid(x, y),
{
    Cell { x: x as i32, y: y as i32 }
}

/// Whether a cell lives at `(x, y)`.  Nothing lives off the grid.
pub open spec fn alive_at(b: Board, x: int, y: int) -> bool {
    on_grid(x, y) && b.contains_key(cell_at(x, y))
}

/// 1 if a cell lives at `(x, y)`, else 0.
pub open spec fn live_at(b: Board, x: int, y: int) -> int {
    if alive_at(b, x, y) {
        1
    } else {
        0
    }
}

/// 1 if a cell owned by `p` lives at `(x, y)`, else 0.
pub open spec fn vote_at(b: Board, x: int, y: int, p: u32) -> int {
    if alive_at(b, x, y) && b[cell_at(x, y)] == p {
        1
    } else {
        0
    }
}

/// The number of live cells among the eight neighbors of `c`.
pub open spec fn live_neighbors(b: Board, c: Cell) -> int {
    live_at(b, c.x - 1, c.y - 1) + live_at(b, c.x - 1, c.y as int) + live_at(b, c.x - 1, c.y + 1)
        + live_at(b, c.x as int, c.y - 1) + live_at(b, c.x as int, c.y + 1)
        + live_at(b, c.x + 1, c.y - 1) + live_at(b, c.x + 1, c.y as int) + live_at(b, c.x + 1, c.y + 1)
}

/// The number of live cells owned by `p` among the eight neighbors of `c`.
pub open spec fn votes_for(b: Board, c: Cell, p: u32) -> int {
    vote_at(b, c.x - 1, c.y - 1, p) + vote_at(b, c.x - 1, c.y as int, p) + vote_at(b, c.x - 1, c.y + 1, p)
        + vote_at(b, c.x as int, c.y - 1, p) + vote_at(b, c.x as int, c.y + 1, p)
        + vote_at(b, c.x + 1, c.y - 1, p) + vote_at(b, c.x + 1, c.y as int, p) + vote_at(b, c.x + 1, c.y + 1, p)
}

/// Whether `c` is looked at during a tick: it is alive, or next to a live cell.
pub open spec fn is_candidate(b: Board, c: Cell) -> bool {
    b.contains_key(c) || live_neighbors(b, c) > 0
}

/// Whether `w` is the player that a cell born at `c` belongs to: no player
/// owns more live neighbors of `c`, and of the players that own as many, `w`
/// has the smallest id.
pub open spec fn leads(b: Board, c: Cell, w: u32) -> bool {
    &&& votes_for(b, c, w) > 0
    &&& forall|p: u32| #[trigger] votes_for(b, c, p) <= votes_for(b, c, w)
    &&& forall|p: u32| #[trigger] votes_for(b, c, p) == votes_for(b, c, w) ==> w <= p
}

/// The owner of a cell born at `c`: the player that [`leads`] there, and 0
/// where `c` has no live neighbor at all.
pub open spec fn birth_owner(b: Board, c: Cell) -> u32 {
    if live_neighbors(b, c) == 0 {
        0
    } else {
        choose|w: u32| leads(b, c, w)
    }
}

/// What the rule says of one coordinate.
#[derive(Clone, Copy, Debug, PartialEq, Eq, Structural)]
pub enum Decision {
    /// The cell is alive outside the culling rectangle and is removed,
    /// whatever its neighbors.
    Cull,
    /// The cell is dead with exactly three live neighbors and comes alive
    /// under `owner`.
    Birth { owner: u32 },
    /// The cell is alive with neither two nor three live neighbors and dies.
    Death,
    /// Nothing changes at this coordinate.
    Keep,
}

/// The decision for `c` on board `b`.
pub open spec fn verdict(b: Board, c: Cell) -> Decision {
    let n = live_neighbors(b, c);
    let is_alive = b.contains_key(c);
    if is_alive && !c.within_bounds() {
        Decision::Cull
    } else if n == 3 && !is_alive {
        Decision::Birth { owner: birth_owner(b, c) }
    } else if n != 2 && n != 3 && is_alive {
        Decision::Death
    } else {
        Decision::Keep
    }
}

/// The board after one decision has been carried out at `c`.
pub open spec fn carry_out(b: Board, c: Cell, d: Decision) -> Board {
    match d {
        Decision::Cull => b.remove(c),
        Decision::Death => b.remove(c),
        Decision::Birth { owner } => b.insert(c, owner),
        Decision::Keep => b,
    }
}

/// The owner of `c` in the next generation, if it is alive then.
pub open spec fn next_owner(b: Board, c: Cell) -> Option<u32> {
    match verdict(b, c) {
        Decision::Cull => None,
        Decision::Death => None,
        Decision::Birth { owner } => Some(owner),
        Decision::Keep => if b.contains_key(c) {
            Some(b[c])
        } else {
            None
        },
    }
}

/// The next generation: every coordinate decided against the same board `b`.
pub open spec fn step(b: Board) -> Board {
    Map::new(|c: Cell| next_owner(b, c) is Some, |c: Cell| next_owner(b, c).unwrap())
}

} // verus!
