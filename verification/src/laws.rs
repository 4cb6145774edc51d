//! What holds of every board: consequences of the rule, stated over [`step`]
//! and proved from its definition.

use vstd::prelude::*;
use crate::board::{
    Board, alive_at, birth_owner, cell_at, leads, live_at, live_neighbors, step, vote_at,
    votes_for,
};
use crate::cell::Cell;
use crate::neighbors::{tallies, votes_of_two_within_neighbors, votes_within_neighbors};
use crate::rules::{leader_is_birth_owner, winner_leads};
use crate::votes::{count, count_push, majority_exists, majority_is_unique, majority_owner};

verus! {

/// A board without alive cells stays without alive cells.
pub proof fn empty_board_stays_empty()
    ensures
        step(Map::<Cell, u32>::empty()) == Map::<Cell, u32>::empty(),
{
    let empty = Map::<Cell, u32>::empty();
    assert forall|c: Cell| !step(empty).contains_key(c) by {
        assert(live_neighbors(empty, c) == 0);
    }
    assert(step(empty) =~= empty);
}

/// Life spreads to neighbors only: a cell that is alive after a tick was
/// alive before or had exactly three live neighbors.
pub proof fn life_spreads_to_neighbors_only(b: Board, c: Cell)
    requires
        step(b).contains_key(c),
    ensures
        b.contains_key(c) || live_neighbors(b, c) == 3,
{
}

/// A cell inside the culling rectangle follows the rule of Life: it is alive
/// after a tick exactly when it was alive with two or three live neighbors, or
/// dead with exactly three.
pub proof fn rule_inside_bounds(b: Board, c: Cell)
    requires
        c.within_bounds(),
    ensures
        step(b).contains_key(c) <==> (if b.contains_key(c) {
            live_neighbors(b, c) == 2 || live_neighbors(b, c) == 3
        } else {
            live_neighbors(b, c) == 3
        }),
{
}

/// An alive cell outside the culling rectangle is gone after one tick,
/// whatever its neighbors: culling wins over survival.
pub proof fn cull_wins_over_survival(b: Board, c: Cell)
    requires
        b.contains_key(c),
        !c.within_bounds(),
    ensures
        !step(b).contains_key(c),
{
}

/// Birth is not clipped: a dead cell with exactly three live neighbors is
/// alive after one tick, inside the culling rectangle or not.
pub proof fn birth_is_not_clipped(b: Board, c: Cell)
    requires
        !b.contains_key(c),
        live_neighbors(b, c) == 3,
    ensures
        step(b).contains_key(c),
        step(b)[c] == birth_owner(b, c),
{
}

/// A cell that stays alive keeps its owner.
pub proof fn survivor_keeps_owner(b: Board, c: Cell)
    requires
        b.contains_key(c),
        step(b).contains_key(c),
    ensures
        step(b)[c] == b[c],
{
}

/// A dead cell with exactly three live neighbors, two of them owned by `a`,
/// comes alive owned by `a`.
pub proof fn majority_owns_newborn(b: Board, c: Cell, a: u32)
    requires
        !b.contains_key(c),
        live_neighbors(b, c) == 3,
        votes_for(b, c, a) == 2,
    ensures
        step(b).contains_key(c),
        step(b)[c] == a,
{
    assert forall|p: u32| #[trigger]
        votes_for(b, c, p) <= votes_for(b, c, a) && (votes_for(b, c, p) == votes_for(b, c, a)
            ==> a <= p) by {
        if p != a {
            votes_of_two_within_neighbors(b, c, p, a);
        }
    }
    leader_is_birth_owner(b, c, a);
}

/// A dead cell with exactly three live neighbors that all have the same owner
/// comes alive under that owner.
pub proof fn unanimous_neighbors_own_newborn(b: Board, c: Cell, a: u32)
    requires
        !b.contains_key(c),
        live_neighbors(b, c) == 3,
        votes_for(b, c, a) == 3,
    ensures
        step(b).contains_key(c),
        step(b)[c] == a,
{
    assert forall|p: u32| #[trigger]
        votes_for(b, c, p) <= votes_for(b, c, a) && (votes_for(b, c, p) == votes_for(b, c, a)
            ==> a <= p) by {
        if p != a {
            votes_of_two_within_neighbors(b, c, p, a);
        }
    }
    leader_is_birth_owner(b, c, a);
}

/// A dead cell with exactly three live neighbors owned by three different
/// players comes alive owned by the one with the smallest id.
pub proof fn three_way_tie_goes_to_smallest(b: Board, c: Cell, p: u32, q: u32, r: u32)
    requires
        !b.contains_key(c),
        live_neighbors(b, c) == 3,
        votes_for(b, c, p) == 1,
        votes_for(b, c, q) == 1,
        votes_for(b, c, r) == 1,
        p < q < r,
    ensures
        step(b).contains_key(c),
        step(b)[c] == p,
{
    assert forall|o: u32| #[trigger]
        votes_for(b, c, o) <= votes_for(b, c, p) && (votes_for(b, c, o) == votes_for(b, c, p)
            ==> p <= o) by {
        votes_within_neighbors(b, c, o);
        if o != p && o != q && o != r {
            votes_of_three_and_one(b, c, p, q, r, o);
        }
    }
    leader_is_birth_owner(b, c, p);
}

/// Of four different players at most one owns the cell at `(x, y)`.
proof fn one_owner_at(b: Board, x: int, y: int, p: u32, q: u32, r: u32, o: u32)
    requires
        p != q,
        p != r,
        q != r,
        o != p,
        o != q,
        o != r,
    ensures
        vote_at(b, x, y, p) + vote_at(b, x, y, q) + vote_at(b, x, y, r) + vote_at(b, x, y, o)
            <= live_at(b, x, y),
{
}

/// Three cells in a row at `(0, 0)`, `(1, 0)` and `(2, 0)`, all owned by
/// `owner`.
pub open spec fn blinker_lying(owner: u32) -> Board {
    Map::<Cell, u32>::empty().insert(Cell { x: 0, y: 0 }, owner).insert(
        Cell { x: 1, y: 0 },
        owner,
    ).insert(Cell { x: 2, y: 0 }, owner)
}

/// Three cells in a column at `(1, -1)`, `(1, 0)` and `(1, 1)`, all owned by
/// `owner`.
pub open spec fn blinker_standing(owner: u32) -> Board {
    Map::<Cell, u32>::empty().insert(Cell { x: 1, y: -1i32 }, owner).insert(
        Cell { x: 1, y: 0 },
        owner,
    ).insert(Cell { x: 1, y: 1 }, owner)
}

/// The blinker has period two, and keeps its owner: three cells in a row turn
/// into three cells in a column through the same center, and back.
pub proof fn blinker_oscillates(owner: u32)
    ensures
        step(blinker_lying(owner)) == blinker_standing(owner),
        step(blinker_standing(owner)) == blinker_lying(owner),
{
    let lying = blinker_lying(owner);
    let standing = blinker_standing(owner);
    assert forall|c: Cell| #[trigger]
        step(lying).contains_key(c) == standing.contains_key(c) && (standing.contains_key(c)
            ==> step(lying)[c] == owner) by {
        if standing.contains_key(c) && !lying.contains_key(c) {
            assert(votes_for(lying, c, owner) == 3);
            unanimous_neighbors_own_newborn(lying, c, owner);
        }
    }
    assert(step(lying) =~= standing);
    assert forall|c: Cell| #[trigger]
        step(standing).contains_key(c) == lying.contains_key(c) && (lying.contains_key(c)
            ==> step(standing)[c] == owner) by {
        if lying.contains_key(c) && !standing.contains_key(c) {
            assert(votes_for(standing, c, owner) == 3);
            unanimous_neighbors_own_newborn(standing, c, owner);
        }
    }
    assert(step(standing) =~= lying);
}

/// Four players together never own more live neighbors of a cell than the
/// cell has.
proof fn votes_of_three_and_one(b: Board, c: Cell, p: u32, q: u32, r: u32, o: u32)
    requires
        p != q,
        p != r,
        q != r,
        o != p,
        o != q,
        o != r,
    ensures
        votes_for(b, c, p) + votes_for(b, c, q) + votes_for(b, c, r) + votes_for(b, c, o)
            <= live_neighbors(b, c),
{
    one_owner_at(b, c.x - 1, c.y - 1, p, q, r, o);
    one_owner_at(b, c.x - 1, c.y as int, p, q, r, o);
    one_owner_at(b, c.x - 1, c.y + 1, p, q, r, o);
    one_owner_at(b, c.x as int, c.y - 1, p, q, r, o);
    one_owner_at(b, c.x as int, c.y + 1, p, q, r, o);
    one_owner_at(b, c.x + 1, c.y - 1, p, q, r, o);
    one_owner_at(b, c.x + 1, c.y as int, p, q, r, o);
    one_owner_at(b, c.x + 1, c.y + 1, p, q, r, o);
}

/// The winner of a vote does not depend on the order of the votes: two runs
/// of votes in which every player has equally many votes have the same
/// winner.
pub proof fn winner_ignores_order(first: Seq<u32>, second: Seq<u32>)
    requires
        forall|p: u32| count(first, p) == count(second, p),
        first.len() == second.len(),
    ensures
        majority_owner(first) == majority_owner(second),
{
    if first.len() > 0 {
        majority_exists(first);
        majority_exists(second);
        let w = majority_owner(first);
        assert(count(second, w) == count(first, w));
        assert forall|p: u32| #[trigger]
            count(second, p) <= count(second, w) && (count(second, p) == count(second, w) ==> w
                <= p) by {
            assert(count(first, p) == count(second, p));
            assert(count(first, p) <= count(first, w));
        }
        majority_is_unique(second, w, majority_owner(second));
    }
}

/// `votes` with the owner of the cell at `(x, y)` added, if a cell lives
/// there.
spec fn with_vote_of(votes: Seq<u32>, b: Board, x: int, y: int) -> Seq<u32> {
    if alive_at(b, x, y) {
        votes.push(b[cell_at(x, y)])
    } else {
        votes
    }
}

/// The votes of the live neighbors of `c`, row by row.
spec fn neighbor_votes(b: Board, c: Cell) -> Seq<u32> {
    let v0 = Seq::<u32>::empty();
    let v1 = with_vote_of(v0, b, c.x - 1, c.y - 1);
    let v2 = with_vote_of(v1, b, c.x - 1, c.y as int);
    let v3 = with_vote_of(v2, b, c.x - 1, c.y + 1);
    let v4 = with_vote_of(v3, b, c.x as int, c.y - 1);
    let v5 = with_vote_of(v4, b, c.x as int, c.y + 1);
    let v6 = with_vote_of(v5, b, c.x + 1, c.y - 1);
    let v7 = with_vote_of(v6, b, c.x + 1, c.y as int);
    with_vote_of(v7, b, c.x + 1, c.y + 1)
}

/// One more neighbor adds its vote to the count of its owner and to the
/// number of votes.
proof fn with_vote_counts(votes: Seq<u32>, b: Board, x: int, y: int, p: u32)
    ensures
        count(with_vote_of(votes, b, x, y), p) == count(votes, p) + vote_at(b, x, y, p),
        with_vote_of(votes, b, x, y).len() == votes.len() + live_at(b, x, y),
{
    if alive_at(b, x, y) {
        count_push(votes, b[cell_at(x, y)], p);
    }
}

/// The votes of the live neighbors are one for each live neighbor.
proof fn neighbor_votes_tally(b: Board, c: Cell)
    ensures
        tallies(b, c, neighbor_votes(b, c)),
{
    let v0 = Seq::<u32>::empty();
    let v1 = with_vote_of(v0, b, c.x - 1, c.y - 1);
    let v2 = with_vote_of(v1, b, c.x - 1, c.y as int);
    let v3 = with_vote_of(v2, b, c.x - 1, c.y + 1);
    let v4 = with_vote_of(v3, b, c.x as int, c.y - 1);
    let v5 = with_vote_of(v4, b, c.x as int, c.y + 1);
    let v6 = with_vote_of(v5, b, c.x + 1, c.y - 1);
    let v7 = with_vote_of(v6, b, c.x + 1, c.y as int);
    assert forall|p: u32| #[trigger] count(neighbor_votes(b, c), p) == votes_for(b, c, p) by {
        with_vote_counts(v0, b, c.x - 1, c.y - 1, p);
        with_vote_counts(v1, b, c.x - 1, c.y as int, p);
        with_vote_counts(v2, b, c.x - 1, c.y + 1, p);
        with_vote_counts(v3, b, c.x as int, c.y - 1, p);
        with_vote_counts(v4, b, c.x as int, c.y + 1, p);
        with_vote_counts(v5, b, c.x + 1, c.y - 1, p);
        with_vote_counts(v6, b, c.x + 1, c.y as int, p);
        with_vote_counts(v7, b, c.x + 1, c.y + 1, p);
    }
    with_vote_counts(v0, b, c.x - 1, c.y - 1, 0);
    with_vote_counts(v1, b, c.x - 1, c.y as int, 0);
    with_vote_counts(v2, b, c.x - 1, c.y + 1, 0);
    with_vote_counts(v3, b, c.x as int, c.y - 1, 0);
    with_vote_counts(v4, b, c.x as int, c.y + 1, 0);
    with_vote_counts(v5, b, c.x + 1, c.y - 1, 0);
    with_vote_counts(v6, b, c.x + 1, c.y as int, 0);
    with_vote_counts(v7, b, c.x + 1, c.y + 1, 0);
}

/// Wherever a cell has a live neighbor, exactly one player leads, and
/// [`birth_owner`] is that player: the owner of a newborn cell is determined
/// by the board alone.
pub proof fn birth_owner_leads(b: Board, c: Cell)
    requires
        live_neighbors(b, c) > 0,
    ensures
        leads(b, c, birth_owner(b, c)),
        forall|w: u32| leads(b, c, w) ==> w == birth_owner(b, c),
{
    let votes = neighbor_votes(b, c);
    neighbor_votes_tally(b, c);
    majority_exists(votes);
    winner_leads(b, c, votes, majority_owner(votes));
    assert forall|w: u32| leads(b, c, w) implies w == birth_owner(b, c) by {
        leader_is_birth_owner(b, c, w);
    }
}

} // verus!
