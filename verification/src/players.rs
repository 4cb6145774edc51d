//! The players: who is connected under which identity, and in which color.
//!
//! A player is created the first time its identity connects and is never
//! removed.  Ids are handed out in order, starting at 1, and never reused.

use vstd::prelude::*;
use vstd::string::StringExecFns;

verus! {

/// The color of a player that has not chosen one.
pub const DEFAULT_COLOR: &'static str = "#FFFFFF";

/// The identity under which a connection is known: an opaque 256-bit value,
/// held as two halves.
#[derive(Clone, Copy, Debug, PartialEq, Eq, Structural, Hash)]
pub struct Identity {
    pub high: u128,
    pub low: u128,
}

/// A player record.
#[derive(Clone, Debug, PartialEq, Eq)]
pub struct Player {
    pub id: u32,
    pub identity: Identity,
    pub color_hex: String,
}

/// A player record as a value: the color as a sequence of characters.
pub struct PlayerRow {
    pub id: u32,
    pub identity: Identity,
    pub color_hex: Seq<char>,
}

impl View for Player {
    type V = PlayerRow;

    open spec fn view(&self) -> PlayerRow {
        PlayerRow { id: self.id, identity: self.identity, color_hex: self.color_hex@ }
    }
}

/// Why an operation was refused.
#[derive(Clone, Copy, Debug, PartialEq, Eq, Structural)]
pub enum WorldError {
    /// The caller's identity has no player record.
    UnknownIdentity,
    /// Every player id has been handed out.
    IdsExhausted,
}

impl WorldError {
    /// What the error says, in words.
    pub open spec fn text(self) -> Seq<char> {
        match self {
            WorldError::UnknownIdentity => "the caller has no player"@,
            WorldError::IdsExhausted => "no player id is left"@,
        }
    }

    /// What the error says, in words.
    pub fn message(&self) -> (message: String)
        ensures
            message@ == self.text(),
    {
        match self {
            WorldError::UnknownIdentity => String::from_str("the caller has no player"),
            WorldError::IdsExhausted => String::from_str("no player id is left"),
        }
    }
}

/// The player records, in the order in which the players first connected.
#[derive(Debug)]
pub struct PlayerDirectory {
    players: Vec<Player>,
    last_id: u32,
}

/// The directory as a value: its rows, and the last id that was handed out.
pub struct DirectoryRows {
    pub rows: Seq<PlayerRow>,
    pub last_id: u32,
}

/// Whether one of `rows` belongs to `identity`.
pub open spec fn known(rows: Seq<PlayerRow>, identity: Identity) -> bool {
    exists|i: int| 0 <= i < rows.len() && (#[trigger] rows[i]).identity == identity
}

/// Whether no identity and no id occurs twice among `rows`, and every id is
/// at least 1.
pub open spec fn distinct(rows: Seq<PlayerRow>) -> bool {
    &&& forall|i: int| 0 <= i < rows.len() ==> 1 <= (#[trigger] rows[i]).id
    &&& forall|i: int, j: int|
        0 <= i < j < rows.len() ==> (#[trigger] rows[i]).id != (#[trigger] rows[j]).id
            && rows[i].identity != rows[j].identity
}

/// Whether the rows are those of a directory: they are [`distinct`], and every
/// id among them has been handed out.  A new directory is consistent, and
/// every operation keeps it so.
pub open spec fn consistent(d: DirectoryRows) -> bool {
    &&& distinct(d.rows)
    &&& forall|i: int| 0 <= i < d.rows.len() ==> (#[trigger] d.rows[i]).id <= d.last_id
}

impl View for PlayerDirectory {
    type V = DirectoryRows;

    closed spec fn view(&self) -> DirectoryRows {
        DirectoryRows { rows: self.players@.map_values(|p: Player| p@), last_id: self.last_id }
    }
}

impl PlayerDirectory {
    /// A directory without players.
    pub fn new() -> (directory: PlayerDirectory)
        ensures
            directory@.rows.len() == 0,
            directory@.last_id == 0,
            consistent(directory@),
    {
        PlayerDirectory { players: Vec::new(), last_id: 0 }
    }

    /// The directory that holds `players`, in their order.  The ids handed out
    /// from then on are larger than every id among them.
    pub fn from_players(players: Vec<Player>) -> (directory: PlayerDirectory)
        ensures
            directory@.rows == players@.map_values(|p: Player| p@),
            forall|i: int| 0 <= i < players.len() ==> (#[trigger] players[i]).id <= directory@.last_id,
            directory@.last_id == 0 || exists|i: int|
                0 <= i < players.len() && (#[trigger] players[i]).id == directory@.last_id,
            distinct(directory@.rows) ==> consistent(directory@),
    {
        let mut last_id: u32 = 0;
        let mut i: usize = 0;
        while i < players.len()
            invariant
                i <= players.len(),
                forall|j: int| 0 <= j < i ==> (#[trigger] players[j]).id <= last_id,
                last_id == 0 || exists|j: int|
                    0 <= j < i && (#[trigger] players[j]).id == last_id,
            decreases players.len() - i,
        {
            if players[i].id > last_id {
                last_id = players[i].id;
            }
            i = i + 1;
        }
        PlayerDirectory { players, last_id }
    }

    /// The number of players.
    pub fn len(&self) -> (n: usize)
        ensures
            n == self@.rows.len(),
    {
        self.players.len()
    }

    /// The player at position `i`, counted in the order of first connection.
    pub fn get(&self, i: usize) -> (player: Option<&Player>)
        ensures
            match player {
                Some(p) => i < self@.rows.len() && p@ == self@.rows[i as int],
                None => i >= self@.rows.len(),
            },
    {
        if i < self.players.len() {
            Some(&self.players[i])
        } else {
            None
        }
    }

    /// The position of the player with `identity`, if there is one.
    pub fn find(&self, identity: Identity) -> (position: Option<usize>)
        ensures
            match position {
                Some(i) => i < self@.rows.len() && self@.rows[i as int].identity == identity,
                None => !known(self@.rows, identity),
            },
    {
        let mut i: usize = 0;
        while i < self.players.len()
            invariant
                i <= self.players.len(),
                forall|j: int| 0 <= j < i ==> (#[trigger] self@.rows[j]).identity != identity,
            decreases self.players.len() - i,
        {
            if self.players[i].identity == identity {
                return Some(i);
            }
            i = i + 1;
        }
        None
    }

    /// The id of the player with `identity`.
    pub fn resolve(&self, identity: Identity) -> (id: Result<u32, WorldError>)
        ensures
            match id {
                Ok(id) => exists|i: int|
                    0 <= i < self@.rows.len() && (#[trigger] self@.rows[i]).identity == identity
                        && self@.rows[i].id == id,
                Err(e) => e == WorldError::UnknownIdentity && !known(self@.rows, identity),
            },
    {
        match self.find(identity) {
            Some(i) => Ok(self.players[i].id),
            None => Err(WorldError::UnknownIdentity),
        }
    }

    /// Records a connection.  An identity that connects for the first time
    /// gets a player with the next id and the default color; one that is known
    /// already changes nothing.  Returns the player's id.
    pub fn connect(&mut self, identity: Identity) -> (id: Result<u32, WorldError>)
        ensures
            consistent(old(self)@) ==> consistent(final(self)@),
            match id {
                Ok(id) => if known(old(self)@.rows, identity) {
                    &&& final(self)@ == old(self)@
                    &&& exists|i: int|
                        0 <= i < old(self)@.rows.len() && (#[trigger] old(self)@.rows[i]).identity
                            == identity && old(self)@.rows[i].id == id
                } else {
                    &&& id == old(self)@.last_id + 1
                    &&& final(self)@.last_id == id
                    &&& final(self)@.rows == old(self)@.rows.push(
                        PlayerRow { id, identity, color_hex: DEFAULT_COLOR@ },
                    )
                },
                Err(e) => {
                    &&& e == WorldError::IdsExhausted
                    &&& !known(old(self)@.rows, identity)
                    &&& old(self)@.last_id == u32::MAX
                    &&& final(self)@ == old(self)@
                },
            },
    {
        match self.find(identity) {
            Some(i) => Ok(self.players[i].id),
            None => {
                if self.last_id == u32::MAX {
                    return Err(WorldError::IdsExhausted);
                }
                let id: u32 = self.last_id + 1;
                let player = Player { id, identity, color_hex: String::from_str(DEFAULT_COLOR) };
                self.players.push(player);
                self.last_id = id;
                proof {
                    assert(self@.rows =~= old(self)@.rows.push(
                        PlayerRow { id, identity, color_hex: DEFAULT_COLOR@ },
                    ));
                }
                Ok(id)
            },
        }
    }

    /// Gives the player with `identity` the color `color_hex`.  No other
    /// player is touched.
    pub fn set_color(&mut self, identity: Identity, color_hex: String) -> (done: Result<
        (),
        WorldError,
    >)
        ensures
            consistent(old(self)@) ==> consistent(final(self)@),
            match done {
                Ok(_) => exists|i: int|
                    0 <= i < old(self)@.rows.len() && (#[trigger] old(self)@.rows[i]).identity
                        == identity && final(self)@.rows == old(self)@.rows.update(
                        i,
                        PlayerRow { id: old(self)@.rows[i].id, identity, color_hex: color_hex@ },
                    ) && final(self)@.last_id == old(self)@.last_id,
                Err(e) => {
                    &&& e == WorldError::UnknownIdentity
                    &&& !known(old(self)@.rows, identity)
                    &&& final(self)@ == old(self)@
                },
            },
    {
        match self.find(identity) {
            Some(i) => {
                let ghost row = PlayerRow {
                    id: self@.rows[i as int].id,
                    identity,
                    color_hex: color_hex@,
                };
                self.players[i].color_hex = color_hex;
                proof {
                    assert(self@.rows =~= old(self)@.rows.update(i as int, row));
                }
                Ok(())
            },
            None => Err(WorldError::UnknownIdentity),
        }
    }
}

} // verus!
