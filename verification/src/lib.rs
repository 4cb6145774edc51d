//! Simulation core of a shared Game of Life world.
//!
//! Many players mark cells alive on one board.  A periodic tick advances the
//! whole board by the usual birth and death rule, removes what lives outside
//! the playfield, and gives every newly born cell to the player that owns most
//! of its live neighbors, the smallest id among equals.
//!
//! The board is modelled as a map from coordinates to owners
//! ([`board::Board`]).  [`board::step`] is the next generation as a function of
//! the current one, and [`grid::Grid::tick`] is proved to compute it.
//!
//! - [`cell`]: coordinates, alive cells and the playfield bounds.
//! - [`board`]: the board as a mathematical object and the rule on it.
//! - [`grid`]: the store of alive cells.
//! - [`neighbors`]: the candidates of a tick and the votes of their neighbors.
//! - [`votes`]: the owner of a newborn cell.
//! - [`rules`]: the decision for one candidate.
//! - [`tick`]: one generation as a batch of point changes.
//! - [`config`], [`players`], [`world`]: the tick interval, the players, and
//!   the operations on the world as a whole.
//! - [`laws`]: what holds of every board.

pub mod cell;
pub mod board;
pub mod votes;
pub mod grid;
pub mod neighbors;
pub mod rules;
pub mod tick;
pub mod config;
pub mod players;
pub mod world;
pub mod laws;
