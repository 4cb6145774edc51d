//! The store of alive cells.
//!
//! A [`Grid`] holds at most one alive cell per coordinate.  Inserting at a
//! coordinate that is already alive replaces the owner: the store never holds
//! two cells for one coordinate.

use vstd::prelude::*;
use std::collections::BTreeMap;
use vstd::std_specs::iter::IteratorSpec;
use vstd::std_specs::cmp::OrdSpec;
use crate::cell::{AliveCell, Cell};
use crate::board::Board;

verus! {

/// The alive cells, looked up by coordinate.
#[derive(Debug)]
pub struct Grid {
    cells: BTreeMap<u64, u32>,
}

impl View for Grid {
    type V = Board;

    closed spec fn view(&self) -> Board {
        Map::new(
            |c: Cell| self.cells@.contains_key(c.packed()),
            |c: Cell| self.cells@[c.packed()],
        )
    }
}

/// Whether `listing` names every alive cell of `b` exactly once, with its
/// owner, ordered by `x` and then by `y`.
pub open spec fn lists(b: Board, listing: Seq<AliveCell>) -> bool {
    &&& forall|i: int|
        0 <= i < listing.len() ==> b.contains_key(#[trigger] listing[i].position())
            && b[listing[i].position()] == listing[i].player_id
    &&& forall|c: Cell|
        b.contains_key(c) ==> exists|i: int|
            0 <= i < listing.len() && #[trigger] listing[i].position() == c
    &&& forall|i: int, j: int|
        0 <= i < j < listing.len() ==> precedes(
            #[trigger] listing[i].position(),
            #[trigger] listing[j].position(),
        )
}

/// Whether `a` comes before `b` when cells are ordered by `x`, then by `y`.
pub open spec fn precedes(a: Cell, b: Cell) -> bool {
    a.x < b.x || (a.x == b.x && a.y < b.y)
}

/// The board that results from inserting `cells` one after the other into an
/// empty board.  Where a coordinate occurs more than once, the last owner stays.
pub open spec fn board_of(cells: Seq<AliveCell>) -> Board
    decreases cells.len(),
{
    if cells.len() == 0 {
        Map::empty()
    } else {
        board_of(cells.drop_last()).insert(cells.last().position(), cells.last().player_id)
    }
}

/// The board after `owner` has marked each of `cells` alive, one after the
/// other.  A coordinate that was alive already changes hands.
pub open spec fn claimed(b: Board, cells: Seq<Cell>, owner: u32) -> Board
    decreases cells.len(),
{
    if cells.len() == 0 {
        b
    } else {
        claimed(b, cells.drop_last(), owner).insert(cells.last(), owner)
    }
}

/// A coordinate is alive on `board_of(cells)` exactly when it occurs in
/// `cells`, and its owner there is the owner of one of its occurrences.
pub proof fn board_of_holds_listed(cells: Seq<AliveCell>, c: Cell)
    ensures
        board_of(cells).contains_key(c) <==> exists|i: int|
            0 <= i < cells.len() && #[trigger] cells[i].position() == c,
        board_of(cells).contains_key(c) ==> exists|i: int|
            0 <= i < cells.len() && #[trigger] cells[i].position() == c && cells[i].player_id
                == board_of(cells)[c],
    decreases cells.len(),
{
    if cells.len() > 0 {
        let front = cells.drop_last();
        let last = cells.len() - 1;
        board_of_holds_listed(front, c);
        if cells[last].position() == c {
            assert(cells[last].position() == c && cells[last].player_id == board_of(cells)[c]);
        } else if board_of(cells).contains_key(c) {
            let i = choose|i: int|
                0 <= i < front.len() && #[trigger] front[i].position() == c && front[i].player_id
                    == board_of(front)[c];
            assert(cells[i].position() == c && cells[i].player_id == board_of(cells)[c]);
        }
        if exists|i: int| 0 <= i < cells.len() && #[trigger] cells[i].position() == c {
            let i = choose|i: int| 0 <= i < cells.len() && #[trigger] cells[i].position() == c;
            if i < last {
                assert(front[i].position() == c);
            }
        }
    }
}

/// Inserting a listing of a board into an empty board gives the board back.
pub proof fn listing_rebuilds_board(b: Board, listing: Seq<AliveCell>)
    requires
        lists(b, listing),
    ensures
        board_of(listing) == b,
{
    assert forall|c: Cell| #[trigger]
        board_of(listing).contains_key(c) == b.contains_key(c) && (b.contains_key(c)
            ==> board_of(listing)[c] == b[c]) by {
        board_of_holds_listed(listing, c);
    }
    assert(board_of(listing) =~= b);
}

/// Keys that an ordered map hands out in increasing order ascend as integers.
pub(crate) proof fn increasing_keys_ascend(keys: Seq<u64>, i: int, j: int)
    requires
        vstd::std_specs::btree::increasing_seq(keys),
        0 <= i < j < keys.len(),
    ensures
        keys[i] < keys[j],
{
    assert(vstd::laws_cmp::obeys_cmp::<u64>());
    assert(keys[i].cmp_spec(&keys[j]) is Less);
}

impl Grid {
    /// An empty grid.
    pub fn new() -> (grid: Grid)
        ensures
            grid@ == Map::<Cell, u32>::empty(),
    {
        let grid = Grid { cells: BTreeMap::new() };
        assert(grid@ =~= Map::<Cell, u32>::empty());
        grid
    }

    /// The number of alive cells.
    pub fn len(&self) -> (n: usize)
        ensures
            self@.dom().finite(),
            n == self@.len(),
    {
        proof {
            let unpack = |key: u64| Cell::unpacked(key);
            let keys = self.cells@.dom();
            assert forall|k1: u64, k2: u64|
                keys.contains(k1) && keys.contains(k2) && #[trigger] unpack(k1) == #[trigger] unpack(
                    k2,
                ) implies k1 == k2 by {
                Cell::unpacked(k1).packing_is_one_to_one(k1);
                Cell::unpacked(k2).packing_is_one_to_one(k2);
            }
            assert forall|c: Cell| keys.map(unpack).contains(c) == self@.dom().contains(c) by {
                c.packing_is_one_to_one(0);
                if self@.dom().contains(c) {
                    assert(keys.contains(c.packed()) && unpack(c.packed()) == c);
                }
                if keys.map(unpack).contains(c) {
                    let k = choose|k: u64| keys.contains(k) && unpack(k) == c;
                    c.packing_is_one_to_one(k);
                }
            }
            assert(keys.map(unpack) =~= self@.dom());
            vstd::set_lib::lemma_map_size(keys, self@.dom(), unpack);
        }
        self.cells.len()
    }

    /// Whether no cell is alive.
    pub fn is_empty(&self) -> (empty: bool)
        ensures
            empty == (self@.len() == 0),
            empty == (self@ == Map::<Cell, u32>::empty()),
    {
        let n = self.len();
        proof {
            if n == 0 {
                assert(self@.dom() =~= Set::<Cell>::empty());
                assert(self@ =~= Map::<Cell, u32>::empty());
            }
        }
        n == 0
    }

    /// The alive cell at `(x, y)`, if there is one.
    pub fn get(&self, x: i32, y: i32) -> (found: Option<AliveCell>)
        ensures
            match found {
                Some(alive) => self@.contains_key(Cell { x, y }) && alive == (AliveCell {
                    x,
                    y,
                    player_id: self@[Cell { x, y }],
                }),
                None => !self@.contains_key(Cell { x, y }),
            },
    {
        let key: u64 = (Cell { x, y }).key();
        match self.cells.get(&key) {
            Some(owner) => Some(AliveCell { x, y, player_id: *owner }),
            None => None,
        }
    }

    /// Whether a cell lives at `cell`.
    pub fn is_alive(&self, cell: Cell) -> (alive: bool)
        ensures
            alive == self@.contains_key(cell),
    {
        let key: u64 = cell.key();
        self.cells.contains_key(&key)
    }

    /// Marks `cell` alive.  If its coordinate was alive already, the owner is
    /// replaced.
    pub fn insert(&mut self, cell: AliveCell)
        ensures
            final(self)@ == old(self)@.insert(cell.position(), cell.player_id),
    {
        let key: u64 = cell.cell().key();
        self.cells.insert(key, cell.player_id);
        proof {
            let target = cell.position();
            assert forall|c: Cell| c.packed() == target.packed() implies c == target by {
                c.packing_is_one_to_one(0);
                target.packing_is_one_to_one(0);
            }
            assert(self@ =~= old(self)@.insert(target, cell.player_id));
        }
    }

    /// Removes the cell at `(x, y)`; does nothing if none lives there.
    pub fn delete(&mut self, x: i32, y: i32)
        ensures
            final(self)@ == old(self)@.remove(Cell { x, y }),
    {
        let target = Cell { x, y };
        let key: u64 = target.key();
        self.cells.remove(&key);
        proof {
            assert forall|c: Cell| c.packed() == target.packed() implies c == target by {
                c.packing_is_one_to_one(0);
                target.packing_is_one_to_one(0);
            }
            assert(self@ =~= old(self)@.remove(target));
        }
    }

    /// The grid that holds `cells`, inserted one after the other.
    pub fn from_cells(cells: &Vec<AliveCell>) -> (grid: Grid)
        ensures
            grid@ == board_of(cells@),
    {
        let mut grid = Grid::new();
        let mut i: usize = 0;
        while i < cells.len()
            invariant
                i <= cells.len(),
                grid@ == board_of(cells@.take(i as int)),
            decreases cells.len() - i,
        {
            proof {
                assert(cells@.take(i + 1).drop_last() =~= cells@.take(i as int));
            }
            grid.insert(cells[i]);
            i = i + 1;
        }
        proof {
            assert(cells@.take(i as int) =~= cells@);
        }
        grid
    }

    /// Marks each of `cells` alive under `owner`, one after the other.
    pub fn claim(&mut self, cells: &Vec<Cell>, owner: u32)
        ensures
            final(self)@ == claimed(old(self)@, cells@, owner),
    {
        let mut i: usize = 0;
        while i < cells.len()
            invariant
                i <= cells.len(),
                self@ == claimed(old(self)@, cells@.take(i as int), owner),
            decreases cells.len() - i,
        {
            proof {
                assert(cells@.take(i + 1).drop_last() =~= cells@.take(i as int));
            }
            self.insert(cells[i].owned_by(owner));
            i = i + 1;
        }
        proof {
            assert(cells@.take(i as int) =~= cells@);
        }
    }

    /// A snapshot of all alive cells, ordered by `x` and then by `y`.
    pub fn all(&self) -> (listing: Vec<AliveCell>)
        ensures
            lists(self@, listing@),
    {
        let mut listing: Vec<AliveCell> = Vec::new();
        let ghost entries: Seq<(&u64, &u32)> = self.cells.iter().remaining();
        let ghost keys: Seq<u64> = entries.map_values(|kv: (&u64, &u32)| *kv.0);
        for entry in it: self.cells.iter()
            invariant
                it.seq() == entries,
                keys == entries.map_values(|kv: (&u64, &u32)| *kv.0),
                vstd::std_specs::btree::increasing_seq(keys),
                listing.len() == it.index(),
                forall|i: int|
                    0 <= i < listing.len() ==> (#[trigger] listing[i]).position().packed()
                        == *entries[i].0 && listing[i].player_id == *entries[i].1,
        {
            let cell = Cell::from_key(*entry.0);
            proof {
                cell.packing_is_one_to_one(*entry.0);
            }
            listing.push(cell.owned_by(*entry.1));
        }
        proof {
            assert(listing.len() == entries.len());
            assert forall|i: int| 0 <= i < listing.len() implies self@.contains_key(
                #[trigger] listing[i].position(),
            ) && self@[listing[i].position()] == listing[i].player_id by {
                assert(self.cells@.contains_key(*entries[i].0));
            }
            assert forall|c: Cell| self@.contains_key(c) implies exists|i: int|
                0 <= i < listing.len() && #[trigger] listing[i].position() == c by {
                let k = c.packed();
                assert(self.cells@.contains_key(k));
                let pair = (&k, &self.cells@[k]);
                assert(entries.contains(pair));
                let i = choose|i: int| 0 <= i < entries.len() && entries[i] == pair;
                assert(listing[i].position().packed() == k);
                c.packing_is_one_to_one(0);
                listing[i].position().packing_is_one_to_one(0);
            }
            assert forall|i: int, j: int| 0 <= i < j < listing.len() implies precedes(
                #[trigger] listing[i].position(),
                #[trigger] listing[j].position(),
            ) by {
                assert(keys[i] == listing[i].position().packed());
                assert(keys[j] == listing[j].position().packed());
                increasing_keys_ascend(keys, i, j);
            }
        }
        listing
    }
}

} // verus!
