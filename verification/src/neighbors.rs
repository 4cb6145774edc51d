//! Collecting, for every coordinate that a tick has to look at, the votes of
//! its live neighbors.
//!
//! Each alive cell visits the 3 x 3 block around itself.  It makes sure that
//! every coordinate of the block is a candidate, itself included, and casts one
//! vote for its owner at each of the eight others.  A dead cell without a live
//! neighbor is never visited and never becomes a candidate.

use vstd::prelude::*;
use std::collections::BTreeMap;
use vstd::std_specs::iter::IteratorSpec;
use crate::cell::{AliveCell, Cell};
use crate::board::{Board, is_candidate, live_neighbors, votes_for};
use crate::grid::{
    Grid, board_of, board_of_holds_listed, increasing_keys_ascend, listing_rebuilds_board, lists,
    precedes,
};
use crate::votes::{count, count_push};

verus! {

/// A coordinate that a tick looks at, with one vote per live neighbor.
#[derive(Clone, Debug, PartialEq, Eq)]
pub struct Candidate {
    pub cell: Cell,
    pub votes: Vec<u32>,
}

/// Whether `a` and `b` are neighbors: different cells whose coordinates differ
/// by at most one in each direction.
pub open spec fn adjacent(a: Cell, b: Cell) -> bool {
    a != b && -1 <= a.x - b.x <= 1 && -1 <= a.y - b.y <= 1
}

/// Whether `votes` holds exactly one vote for each live neighbor of `c` on
/// board `b`, in any order.
pub open spec fn tallies(b: Board, c: Cell, votes: Seq<u32>) -> bool {
    &&& votes.len() == live_neighbors(b, c)
    &&& forall|p: u32| #[trigger] count(votes, p) == votes_for(b, c, p)
}

/// Whether `candidates` are the cells that a tick on board `b` looks at: every
/// cell that is alive or next to a live cell, once each, ordered by `x` and
/// then by `y`, each with the votes of its live neighbors.
pub open spec fn aggregates(b: Board, candidates: Seq<Candidate>) -> bool {
    &&& forall|i: int|
        0 <= i < candidates.len() ==> is_candidate(b, #[trigger] candidates[i].cell) && tallies(
            b,
            candidates[i].cell,
            candidates[i].votes@,
        )
    &&& forall|c: Cell|
        is_candidate(b, c) ==> exists|i: int|
            0 <= i < candidates.len() && #[trigger] candidates[i].cell == c
    &&& forall|i: int, j: int|
        0 <= i < j < candidates.len() ==> precedes(
            #[trigger] candidates[i].cell,
            #[trigger] candidates[j].cell,
        )
}

/// A player never owns more live neighbors of a cell than the cell has.
pub proof fn votes_within_neighbors(b: Board, c: Cell, p: u32)
    ensures
        0 <= votes_for(b, c, p) <= live_neighbors(b, c) <= 8,
{
}

/// Two players together never own more live neighbors of a cell than the cell
/// has.
pub proof fn votes_of_two_within_neighbors(b: Board, c: Cell, p: u32, q: u32)
    requires
        p != q,
    ensures
        votes_for(b, c, p) + votes_for(b, c, q) <= live_neighbors(b, c),
{
}

/// A cell that comes alive at a dead coordinate `d` adds one live neighbor, and
/// one vote for its owner, at each cell next to `d`, and changes nothing
/// anywhere else.
pub proof fn neighbor_gained(b: Board, d: Cell, owner: u32, c: Cell, p: u32)
    requires
        !b.contains_key(d),
    ensures
        live_neighbors(b.insert(d, owner), c) == live_neighbors(b, c) + if adjacent(c, d) {
            1int
        } else {
            0int
        },
        votes_for(b.insert(d, owner), c, p) == votes_for(b, c, p) + if adjacent(c, d) && owner
            == p {
            1int
        } else {
            0int
        },
{
}

/// The votes collected so far, by cell.
spec fn tally_view(tally: Map<u64, Vec<u32>>) -> Map<Cell, Seq<u32>> {
    Map::new(|c: Cell| tally.contains_key(c.packed()), |c: Cell| tally[c.packed()]@)
}

/// The votes collected for `c`, none if `c` is no candidate yet.
spec fn prior(tv: Map<Cell, Seq<u32>>, c: Cell) -> Seq<u32> {
    if tv.contains_key(c) {
        tv[c]
    } else {
        Seq::empty()
    }
}

/// `votes` with `vote` added, if there is one.
spec fn extended(votes: Seq<u32>, vote: Option<u32>) -> Seq<u32> {
    match vote {
        Some(p) => votes.push(p),
        None => votes,
    }
}

/// The place of `c` in the block around `d`, counted from 0 to 8 in the order
/// of the visit, or -1 if `c` is outside the block.  The center has place 4.
spec fn block_index(d: Cell, c: Cell) -> int {
    if -1 <= c.x - d.x <= 1 && -1 <= c.y - d.y <= 1 {
        (c.x - d.x + 1) * 3 + (c.y - d.y + 1)
    } else {
        -1
    }
}

/// The collected votes after the cell at `d`, owned by `owner`, has visited the
/// first `k` places of its block.
spec fn visited(tv: Map<Cell, Seq<u32>>, d: Cell, owner: u32, k: int) -> Map<Cell, Seq<u32>> {
    Map::new(
        |c: Cell| tv.contains_key(c) || 0 <= block_index(d, c) < k,
        |c: Cell|
            if 0 <= block_index(d, c) < k && block_index(d, c) != 4 {
                prior(tv, c).push(owner)
            } else {
                prior(tv, c)
            },
    )
}

/// Whether `tv` holds exactly the candidates of board `b`, each with the votes
/// of its live neighbors.
spec fn collected(tv: Map<Cell, Seq<u32>>, b: Board) -> bool {
    forall|c: Cell|
        (#[trigger] tv.contains_key(c) <==> is_candidate(b, c)) && (tv.contains_key(c)
            ==> tallies(b, c, tv[c]))
}

/// Once a cell that was dead at `d` has visited its block, the votes are
/// those of the board on which `d` is alive.
proof fn visit_collects(tv: Map<Cell, Seq<u32>>, b: Board, d: Cell, owner: u32)
    requires
        collected(tv, b),
        !b.contains_key(d),
    ensures
        collected(visited(tv, d, owner, 9), b.insert(d, owner)),
{
    let tv1 = visited(tv, d, owner, 9);
    let b1 = b.insert(d, owner);
    assert forall|c: Cell|
        (#[trigger] tv1.contains_key(c) <==> is_candidate(b1, c)) && (tv1.contains_key(c)
            ==> tallies(b1, c, tv1[c])) by {
        neighbor_gained(b, d, owner, c, 0);
        votes_within_neighbors(b, c, 0);
        assert(tv.contains_key(c) <==> is_candidate(b, c));
        assert(adjacent(c, d) <==> (0 <= block_index(d, c) < 9 && block_index(d, c) != 4));
        assert(c == d <==> block_index(d, c) == 4);
        if tv1.contains_key(c) {
            assert forall|p: u32| #[trigger] count(tv1[c], p) == votes_for(b1, c, p) by {
                neighbor_gained(b, d, owner, c, p);
                votes_within_neighbors(b, c, p);
                count_push(prior(tv, c), owner, p);
                if tv.contains_key(c) {
                    assert(count(tv[c], p) == votes_for(b, c, p));
                }
            }
        }
    }
}

/// Makes `cell` a candidate if it is none yet, and adds `vote` to its votes.
fn cast(tally: &mut BTreeMap<u64, Vec<u32>>, cell: Cell, vote: Option<u32>)
    ensures
        tally_view(final(tally)@) == tally_view(old(tally)@).insert(
            cell,
            extended(prior(tally_view(old(tally)@), cell), vote),
        ),
{
    let key: u64 = cell.key();
    let mut votes: Vec<u32> = match tally.remove(&key) {
        Some(votes) => votes,
        None => Vec::new(),
    };
    match vote {
        Some(owner) => {
            votes.push(owner);
        },
        None => {},
    }
    tally.insert(key, votes);
    proof {
        assert forall|c: Cell| c.packed() == cell.packed() implies c == cell by {
            c.packing_is_one_to_one(0);
            cell.packing_is_one_to_one(0);
        }
        assert(tally_view(tally@) =~~= tally_view(old(tally)@).insert(
            cell,
            extended(prior(tally_view(old(tally)@), cell), vote),
        ));
    }
}

/// Lets one alive cell visit the block around itself.
fn visit(tally: &mut BTreeMap<u64, Vec<u32>>, alive: AliveCell)
    ensures
        tally_view(final(tally)@) == visited(
            tally_view(old(tally)@),
            alive.position(),
            alive.player_id,
            9,
        ),
{
    let ghost start = tally_view(tally@);
    let ghost d = alive.position();
    let mut k: u8 = 0;
    assert(tally_view(tally@) =~~= visited(start, d, alive.player_id, 0));
    while k < 9
        invariant
            k <= 9,
            d == alive.position(),
            tally_view(tally@) == visited(start, d, alive.player_id, k as int),
        decreases 9 - k,
    {
        let x: i64 = alive.x as i64 + (k / 3) as i64 - 1;
        let y: i64 = alive.y as i64 + (k % 3) as i64 - 1;
        if i32::MIN as i64 <= x && x <= i32::MAX as i64 && i32::MIN as i64 <= y && y
            <= i32::MAX as i64 {
            let target = Cell { x: x as i32, y: y as i32 };
            let vote: Option<u32> = if k == 4 {
                None
            } else {
                Some(alive.player_id)
            };
            assert(block_index(d, target) == k);
            cast(tally, target, vote);
            assert(tally_view(tally@) =~~= visited(start, d, alive.player_id, k + 1)) by {
                assert forall|c: Cell| block_index(d, c) == k implies c == target by {}
            }
        } else {
            assert(tally_view(tally@) =~~= visited(start, d, alive.player_id, k + 1)) by {
                assert forall|c: Cell| block_index(d, c) != k by {}
            }
        }
        k = k + 1;
    }
}

/// Lists the collected votes cell by cell, ordered by `x` and then by `y`.
fn candidates_of(tally: &BTreeMap<u64, Vec<u32>>) -> (candidates: Vec<Candidate>)
    ensures
        forall|i: int|
            0 <= i < candidates.len() ==> tally@.contains_key(
                (#[trigger] candidates[i]).cell.packed(),
            ) && candidates[i].votes@ == tally@[candidates[i].cell.packed()]@,
        forall|c: Cell|
            tally@.contains_key(c.packed()) ==> exists|i: int|
                0 <= i < candidates.len() && #[trigger] candidates[i].cell == c,
        forall|i: int, j: int|
            0 <= i < j < candidates.len() ==> precedes(
                #[trigger] candidates[i].cell,
                #[trigger] candidates[j].cell,
            ),
{
    let mut candidates: Vec<Candidate> = Vec::new();
    let ghost entries: Seq<(&u64, &Vec<u32>)> = tally.iter().remaining();
    let ghost keys: Seq<u64> = entries.map_values(|kv: (&u64, &Vec<u32>)| *kv.0);
    for entry in it: tally.iter()
        invariant
            it.seq() == entries,
            keys == entries.map_values(|kv: (&u64, &Vec<u32>)| *kv.0),
            vstd::std_specs::btree::increasing_seq(keys),
            candidates.len() == it.index(),
            forall|i: int|
                0 <= i < candidates.len() ==> (#[trigger] candidates[i]).cell.packed()
                    == *entries[i].0 && candidates[i].votes@ == (*entries[i].1)@,
    {
        let cell = Cell::from_key(*entry.0);
        proof {
            cell.packing_is_one_to_one(*entry.0);
        }
        let votes: Vec<u32> = entry.1.clone();
        assert(votes@ =~= (*entry.1)@);
        candidates.push(Candidate { cell, votes });
    }
    proof {
        assert(candidates.len() == entries.len());
        assert forall|i: int| 0 <= i < candidates.len() implies tally@.contains_key(
            (#[trigger] candidates[i]).cell.packed(),
        ) && candidates[i].votes@ == tally@[candidates[i].cell.packed()]@ by {
            assert(tally@.contains_key(*entries[i].0));
        }
        assert forall|c: Cell| tally@.contains_key(c.packed()) implies exists|i: int|
            0 <= i < candidates.len() && #[trigger] candidates[i].cell == c by {
            let k = c.packed();
            let pair = (&k, &tally@[k]);
            assert(entries.contains(pair));
            let i = choose|i: int| 0 <= i < entries.len() && entries[i] == pair;
            assert(candidates[i].cell.packed() == k);
            c.packing_is_one_to_one(0);
            candidates[i].cell.packing_is_one_to_one(0);
        }
        assert forall|i: int, j: int| 0 <= i < j < candidates.len() implies precedes(
            #[trigger] candidates[i].cell,
            #[trigger] candidates[j].cell,
        ) by {
            assert(keys[i] == candidates[i].cell.packed());
            assert(keys[j] == candidates[j].cell.packed());
            increasing_keys_ascend(keys, i, j);
        }
    }
    candidates
}

/// Collects the candidates of one tick: every coordinate that is alive or next
/// to a live cell, with the votes of its live neighbors.  The grid is read
/// once, before any vote is collected.
pub fn aggregate(grid: &Grid) -> (candidates: Vec<Candidate>)
    ensures
        aggregates(grid@, candidates@),
{
    let snapshot = grid.all();
    let mut tally: BTreeMap<u64, Vec<u32>> = BTreeMap::new();
    let mut i: usize = 0;
    assert(tally_view(tally@) =~= Map::<Cell, Seq<u32>>::empty());
    while i < snapshot.len()
        invariant
            i <= snapshot.len(),
            lists(grid@, snapshot@),
            collected(tally_view(tally@), board_of(snapshot@.take(i as int))),
        decreases snapshot.len() - i,
    {
        let alive = snapshot[i];
        proof {
            let seen = snapshot@.take(i as int);
            assert(snapshot@.take(i + 1).drop_last() =~= seen);
            board_of_holds_listed(seen, alive.position());
            if board_of(seen).contains_key(alive.position()) {
                let j = choose|j: int|
                    0 <= j < seen.len() && #[trigger] seen[j].position() == alive.position();
                assert(precedes(snapshot@[j].position(), snapshot@[i as int].position()));
            }
            visit_collects(
                tally_view(tally@),
                board_of(seen),
                alive.position(),
                alive.player_id,
            );
        }
        visit(&mut tally, alive);
        i = i + 1;
    }
    proof {
        assert(snapshot@.take(i as int) =~= snapshot@);
        listing_rebuilds_board(grid@, snapshot@);
    }
    let candidates = candidates_of(&tally);
    proof {
        let tv = tally_view(tally@);
        assert forall|i: int| 0 <= i < candidates.len() implies is_candidate(
            grid@,
            #[trigger] candidates[i].cell,
        ) && tallies(grid@, candidates[i].cell, candidates[i].votes@) by {
            assert(tv.contains_key(candidates[i].cell));
        }
        assert forall|c: Cell| is_candidate(grid@, c) implies exists|i: int|
            0 <= i < candidates.len() && #[trigger] candidates[i].cell == c by {
            assert(tv.contains_key(c));
        }
    }
    candidates
}

} // verus!
