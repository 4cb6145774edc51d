//! The whole world behind one value: configuration, trigger, players and grid,
//! and the operations that callers and the trigger may invoke.
//!
//! Every operation either takes effect as a whole or is refused and changes
//! nothing.

use vstd::prelude::*;
use crate::board::{Board, step};
use crate::cell::Cell;
use crate::config::{Config, DEFAULT_TICK_INTERVAL_MS, TickTrigger};
use crate::grid::{Grid, claimed};
use crate::players::{
    DEFAULT_COLOR, DirectoryRows, Identity, PlayerDirectory, PlayerRow, WorldError, consistent,
    known,
};

verus! {

/// The world: one configuration record, one tick trigger, the players and the
/// alive cells.
#[derive(Debug)]
pub struct World {
    config: Config,
    trigger: TickTrigger,
    players: PlayerDirectory,
    grid: Grid,
}

/// The world as a value.
pub struct WorldState {
    pub config: Config,
    pub trigger: TickTrigger,
    pub players: DirectoryRows,
    pub grid: Board,
}

impl View for World {
    type V = WorldState;

    closed spec fn view(&self) -> WorldState {
        WorldState {
            config: self.config,
            trigger: self.trigger,
            players: self.players@,
            grid: self.grid@,
        }
    }
}

/// Whether a state is one that a world can be in: the trigger fires at the
/// configured interval, and the players are consistent.  A fresh world is in
/// such a state, and every operation keeps it so.
pub open spec fn coherent(w: WorldState) -> bool {
    &&& w.trigger == w.config.trigger_of()
    &&& consistent(w.players)
}

impl World {
    /// A fresh world: the default tick interval with its trigger armed, no
    /// player and no alive cell.
    pub fn init() -> (world: World)
        ensures
            world@.config == Config::for_interval(DEFAULT_TICK_INTERVAL_MS),
            world@.trigger == Config::for_interval(DEFAULT_TICK_INTERVAL_MS).trigger_of(),
            world@.trigger.period_micros == 500_000,
            world@.players.rows.len() == 0,
            world@.players.last_id == 0,
            world@.grid == Map::<Cell, u32>::empty(),
            coherent(world@),
    {
        let config = Config::initial();
        World { config, trigger: config.trigger(), players: PlayerDirectory::new(), grid: Grid::new() }
    }

    /// A world put together from a tick interval, players and alive cells that
    /// were kept elsewhere.  The trigger is armed at the interval.
    pub fn restore(interval_ms: u32, players: PlayerDirectory, grid: Grid) -> (world: World)
        ensures
            world@.config == Config::for_interval(interval_ms),
            world@.trigger == Config::for_interval(interval_ms).trigger_of(),
            world@.players == players@,
            world@.grid == grid@,
            consistent(players@) ==> coherent(world@),
    {
        let config = Config::with_interval(interval_ms);
        World { config, trigger: config.trigger(), players, grid }
    }

    /// The configuration record.
    pub fn config(&self) -> (config: Config)
        ensures
            config == self@.config,
    {
        self.config
    }

    /// The tick trigger.
    pub fn trigger(&self) -> (trigger: TickTrigger)
        ensures
            trigger == self@.trigger,
    {
        self.trigger
    }

    /// The players.
    pub fn players(&self) -> (players: &PlayerDirectory)
        ensures
            players@ == self@.players,
    {
        &self.players
    }

    /// The alive cells.
    pub fn grid(&self) -> (grid: &Grid)
        ensures
            grid@ == self@.grid,
    {
        &self.grid
    }

    /// A connection was established under `identity`.  An identity that was
    /// never seen gets a player with the default color; a known one changes
    /// nothing.  Refused, with nothing changed, only when an unseen identity
    /// connects and no player id is left.
    pub fn identity_connected(&mut self, identity: Identity) -> (done: Result<(), WorldError>)
        ensures
            coherent(old(self)@) ==> coherent(final(self)@),
            final(self)@.config == old(self)@.config,
            final(self)@.trigger == old(self)@.trigger,
            final(self)@.grid == old(self)@.grid,
            match done {
                Ok(_) => if known(old(self)@.players.rows, identity) {
                    final(self)@.players == old(self)@.players
                } else {
                    &&& final(self)@.players.last_id == old(self)@.players.last_id + 1
                    &&& final(self)@.players.rows == old(self)@.players.rows.push(
                        PlayerRow {
                            id: final(self)@.players.last_id,
                            identity,
                            color_hex: DEFAULT_COLOR@,
                        },
                    )
                },
                Err(e) => {
                    &&& e == WorldError::IdsExhausted
                    &&& !known(old(self)@.players.rows, identity)
                    &&& old(self)@.players.last_id == u32::MAX
                    &&& final(self)@.players == old(self)@.players
                },
            },
    {
        match self.players.connect(identity) {
            Ok(_) => Ok(()),
            Err(e) => Err(e),
        }
    }

    /// A connection was closed.  Players stay once created: nothing changes.
    pub fn identity_disconnected(&mut self, _identity: Identity)
        ensures
            final(self)@ == old(self)@,
    {
    }

    /// The caller marks `cells` alive under its own player id, one after the
    /// other, whether or not they lie inside the playfield.  Refused, with
    /// nothing changed, exactly when the caller has no player.
    pub fn add(&mut self, caller: Identity, cells: Vec<Cell>) -> (done: Result<(), WorldError>)
        ensures
            coherent(old(self)@) ==> coherent(final(self)@),
            final(self)@.config == old(self)@.config,
            final(self)@.trigger == old(self)@.trigger,
            final(self)@.players == old(self)@.players,
            match done {
                Ok(_) => exists|i: int|
                    0 <= i < old(self)@.players.rows.len() && (#[trigger] old(
                        self,
                    )@.players.rows[i]).identity == caller && final(self)@.grid == claimed(
                        old(self)@.grid,
                        cells@,
                        old(self)@.players.rows[i].id,
                    ),
                Err(e) => {
                    &&& e == WorldError::UnknownIdentity
                    &&& !known(old(self)@.players.rows, caller)
                    &&& final(self)@.grid == old(self)@.grid
                },
            },
    {
        match self.players.resolve(caller) {
            Ok(owner) => {
                let ghost rows = self@.players.rows;
                let ghost i = choose|i: int|
                    0 <= i < rows.len() && (#[trigger] rows[i]).identity == caller && rows[i].id
                        == owner;
                self.grid.claim(&cells, owner);
                assert(old(self)@.players.rows[i].identity == caller && self@.grid == claimed(
                    old(self)@.grid,
                    cells@,
                    old(self)@.players.rows[i].id,
                ));
                Ok(())
            },
            Err(e) => Err(e),
        }
    }

    /// The caller chooses the color `color_hex`.  Only the caller's own player
    /// changes.  Refused, with nothing changed, exactly when the caller has no
    /// player.
    pub fn set_color(&mut self, caller: Identity, color_hex: String) -> (done: Result<
        (),
        WorldError,
    >)
        ensures
            coherent(old(self)@) ==> coherent(final(self)@),
            final(self)@.config == old(self)@.config,
            final(self)@.trigger == old(self)@.trigger,
            final(self)@.grid == old(self)@.grid,
            final(self)@.players.last_id == old(self)@.players.last_id,
            match done {
                Ok(_) => exists|i: int|
                    0 <= i < old(self)@.players.rows.len() && (#[trigger] old(
                        self,
                    )@.players.rows[i]).identity == caller && final(self)@.players.rows == old(
                        self,
                    )@.players.rows.update(
                        i,
                        PlayerRow {
                            id: old(self)@.players.rows[i].id,
                            identity: caller,
                            color_hex: color_hex@,
                        },
                    ),
                Err(e) => {
                    &&& e == WorldError::UnknownIdentity
                    &&& !known(old(self)@.players.rows, caller)
                    &&& final(self)@.players == old(self)@.players
                },
            },
    {
        self.players.set_color(caller, color_hex)
    }

    /// Sets the tick interval.  The configuration record and the trigger
    /// change together.
    pub fn update_tick_interval(&mut self, interval_ms: u32)
        ensures
            final(self)@.config == Config::for_interval(interval_ms),
            final(self)@.trigger == Config::for_interval(interval_ms).trigger_of(),
            final(self)@.trigger.period_micros == interval_ms * 1000,
            final(self)@.players == old(self)@.players,
            final(self)@.grid == old(self)@.grid,
            coherent(old(self)@) ==> coherent(final(self)@),
    {
        let config = Config::with_interval(interval_ms);
        self.config = config;
        self.trigger = config.trigger();
    }

    /// The trigger fired: the grid advances by one generation.  A tick never
    /// fails.
    pub fn tick(&mut self) -> (done: Result<(), WorldError>)
        ensures
            done is Ok,
            final(self)@.grid == step(old(self)@.grid),
            final(self)@.config == old(self)@.config,
            final(self)@.trigger == old(self)@.trigger,
            final(self)@.players == old(self)@.players,
            coherent(old(self)@) ==> coherent(final(self)@),
    {
        self.grid.tick();
        Ok(())
    }
}

} // verus!
