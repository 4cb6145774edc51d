//! The rule for one coordinate: cull, birth, death, or no change.

use vstd::prelude::*;
use crate::cell::Cell;
use crate::board::{Board, Decision, birth_owner, leads, verdict, votes_for};
use crate::neighbors::tallies;
use crate::votes::{count, is_majority, majority_exists, majority_owner, resolve_owner};

verus! {

/// The decision for `cell`, from whether it is alive and from the votes of its
/// live neighbors.
///
/// An alive cell outside the culling rectangle is culled, whatever its
/// neighbors.  Otherwise a dead cell with exactly three votes is born under
/// the winner of the vote, an alive cell with neither two nor three votes
/// dies, and nothing changes in every other case.
pub open spec fn decision(cell: Cell, is_alive: bool, votes: Seq<u32>) -> Decision {
    if is_alive && !cell.within_bounds() {
        Decision::Cull
    } else if votes.len() == 3 && !is_alive {
        Decision::Birth { owner: majority_owner(votes) }
    } else if votes.len() != 2 && votes.len() != 3 && is_alive {
        Decision::Death
    } else {
        Decision::Keep
    }
}

/// Decides what happens at `cell`.  `is_alive` says whether the cell was alive
/// when the tick began, and `votes` holds one owner id per live neighbor.
pub fn decide(cell: Cell, is_alive: bool, votes: &Vec<u32>) -> (d: Decision)
    ensures
        d == decision(cell, is_alive, votes@),
{
    let n: usize = votes.len();
    if is_alive && !cell.in_bounds() {
        Decision::Cull
    } else if n == 3 && !is_alive {
        Decision::Birth { owner: resolve_owner(votes) }
    } else if n != 2 && n != 3 && is_alive {
        Decision::Death
    } else {
        Decision::Keep
    }
}

/// The winner of the votes collected for `c` is the player that leads at `c`.
pub proof fn winner_leads(b: Board, c: Cell, votes: Seq<u32>, w: u32)
    requires
        tallies(b, c, votes),
    ensures
        is_majority(votes, w) <==> leads(b, c, w),
{
    assert(count(votes, w) == votes_for(b, c, w));
    if is_majority(votes, w) {
        assert forall|p: u32| #[trigger]
            votes_for(b, c, p) <= votes_for(b, c, w) && (votes_for(b, c, p) == votes_for(
                b,
                c,
                w,
            ) ==> w <= p) by {
            assert(count(votes, p) == votes_for(b, c, p));
        }
    }
    if leads(b, c, w) {
        assert forall|p: u32| #[trigger]
            count(votes, p) <= count(votes, w) && (count(votes, p) == count(votes, w) ==> w
                <= p) by {
            assert(count(votes, p) == votes_for(b, c, p));
        }
    }
}

/// At most one player leads at a cell.
pub proof fn leader_is_unique(b: Board, c: Cell, v: u32, w: u32)
    requires
        leads(b, c, v),
        leads(b, c, w),
    ensures
        v == w,
{
    assert(votes_for(b, c, v) <= votes_for(b, c, w));
    assert(votes_for(b, c, w) <= votes_for(b, c, v));
}

/// A player that leads at a cell is the owner of a cell born there.
pub proof fn leader_is_birth_owner(b: Board, c: Cell, w: u32)
    requires
        leads(b, c, w),
    ensures
        birth_owner(b, c) == w,
{
    crate::neighbors::votes_within_neighbors(b, c, w);
    leader_is_unique(b, c, w, birth_owner(b, c));
}

/// Deciding from the votes collected for `c` gives the decision of the rule
/// for `c` on the board.
pub proof fn decision_is_verdict(b: Board, c: Cell, votes: Seq<u32>)
    requires
        tallies(b, c, votes),
    ensures
        decision(c, b.contains_key(c), votes) == verdict(b, c),
{
    if votes.len() > 0 {
        majority_exists(votes);
        winner_leads(b, c, votes, majority_owner(votes));
        leader_is_birth_owner(b, c, majority_owner(votes));
    }
}

} // verus!
