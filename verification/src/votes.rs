//! Resolving the owner of a newborn cell from the votes of its live neighbors.
//!
//! Each live neighbor casts one vote for its own owner.  The player with the
//! most votes wins; among players with equally many, the smallest id wins, so
//! the outcome never depends on the order in which the votes were collected.

use vstd::prelude::*;

verus! {

/// How many of `votes` are for player `p`.
pub open spec fn count(votes: Seq<u32>, p: u32) -> int
    decreases votes.len(),
{
    if votes.len() == 0 {
        0
    } else {
        count(votes.drop_last(), p) + if votes.last() == p {
            1int
        } else {
            0int
        }
    }
}

/// Whether `w` wins the vote: it has at least one vote, no player has more, and
/// every player with as many has an id at least as large.
pub open spec fn is_majority(votes: Seq<u32>, w: u32) -> bool {
    &&& count(votes, w) > 0
    &&& forall|p: u32| #[trigger] count(votes, p) <= count(votes, w)
    &&& forall|p: u32| #[trigger] count(votes, p) == count(votes, w) ==> w <= p
}

/// The winner of `votes`, and 0 where nobody voted.
pub open spec fn majority_owner(votes: Seq<u32>) -> u32 {
    if votes.len() == 0 {
        0
    } else {
        choose|w: u32| is_majority(votes, w)
    }
}

/// A count is never negative and never more than the number of votes.
pub proof fn count_bounds(votes: Seq<u32>, p: u32)
    ensures
        0 <= count(votes, p) <= votes.len(),
    decreases votes.len(),
{
    if votes.len() > 0 {
        count_bounds(votes.drop_last(), p);
    }
}

/// A player has a vote exactly when it occurs among the votes.
pub proof fn count_positive_iff_present(votes: Seq<u32>, p: u32)
    ensures
        count(votes, p) > 0 <==> exists|i: int| 0 <= i < votes.len() && votes[i] == p,
    decreases votes.len(),
{
    if votes.len() > 0 {
        let front = votes.drop_last();
        count_positive_iff_present(front, p);
        count_bounds(front, p);
        if count(votes, p) > 0 {
            if votes.last() == p {
                assert(votes[votes.len() - 1] == p);
            } else {
                let i = choose|i: int| 0 <= i < front.len() && front[i] == p;
                assert(votes[i] == p);
            }
        }
        if exists|i: int| 0 <= i < votes.len() && votes[i] == p {
            let i = choose|i: int| 0 <= i < votes.len() && votes[i] == p;
            if i < votes.len() - 1 {
                assert(front[i] == p);
            }
        }
    }
}

/// One more vote raises the count of the player voted for by one and leaves
/// every other count as it was.
pub proof fn count_push(votes: Seq<u32>, vote: u32, p: u32)
    ensures
        count(votes.push(vote), p) == count(votes, p) + if vote == p {
            1int
        } else {
            0int
        },
{
    assert(votes.push(vote).drop_last() =~= votes);
}

/// At most one player wins a vote.
pub proof fn majority_is_unique(votes: Seq<u32>, a: u32, b: u32)
    requires
        is_majority(votes, a),
        is_majority(votes, b),
    ensures
        a == b,
{
    assert(count(votes, a) <= count(votes, b));
    assert(count(votes, b) <= count(votes, a));
}

/// Picks, among the first `n` votes, a player that no other of them beats.
proof fn best_among(votes: Seq<u32>, n: int) -> (w: u32)
    requires
        0 < n <= votes.len(),
    ensures
        count(votes, w) > 0,
        forall|j: int|
            0 <= j < n ==> count(votes, #[trigger] votes[j]) < count(votes, w) || (count(
                votes,
                votes[j],
            ) == count(votes, w) && w <= votes[j]),
    decreases n,
{
    if n == 1 {
        count_positive_iff_present(votes, votes[0]);
        votes[0]
    } else {
        let before = best_among(votes, n - 1);
        let last = votes[n - 1];
        count_positive_iff_present(votes, last);
        if count(votes, last) > count(votes, before) || (count(votes, last) == count(
            votes,
            before,
        ) && last < before) {
            last
        } else {
            before
        }
    }
}

/// Wherever somebody voted, somebody wins, and [`majority_owner`] is that
/// player.
pub proof fn majority_exists(votes: Seq<u32>)
    requires
        votes.len() > 0,
    ensures
        is_majority(votes, majority_owner(votes)),
{
    let w = best_among(votes, votes.len() as int);
    assert forall|p: u32| #[trigger] count(votes, p) <= count(votes, w) && (count(votes, p)
        == count(votes, w) ==> w <= p) by {
        count_positive_iff_present(votes, p);
        count_bounds(votes, p);
        if count(votes, p) > 0 {
            let j = choose|j: int| 0 <= j < votes.len() && votes[j] == p;
            assert(count(votes, votes[j]) <= count(votes, w));
        }
    }
    assert(is_majority(votes, w));
}

/// Counts how many of `votes` are for `p`.
pub fn occurrences(votes: &Vec<u32>, p: u32) -> (n: usize)
    ensures
        n == count(votes@, p),
{
    let mut n: usize = 0;
    let mut i: usize = 0;
    while i < votes.len()
        invariant
            i <= votes.len(),
            n <= i,
            n == count(votes@.take(i as int), p),
        decreases votes.len() - i,
    {
        assert(votes@.take(i + 1).drop_last() =~= votes@.take(i as int));
        if votes[i] == p {
            n = n + 1;
        }
        i = i + 1;
    }
    assert(votes@.take(i as int) =~= votes@);
    n
}

/// Picks the owner of a newborn cell: the player with the most votes, the
/// smallest id among equals, and 0 if there is no vote at all.
pub fn resolve_owner(votes: &Vec<u32>) -> (owner: u32)
    ensures
        owner == majority_owner(votes@),
        votes@.len() > 0 ==> is_majority(votes@, owner),
        votes@.len() == 0 ==> owner == 0,
{
    if votes.len() == 0 {
        return 0;
    }
    let mut best: u32 = votes[0];
    let mut best_count: usize = occurrences(votes, best);
    let mut i: usize = 1;
    proof {
        count_positive_iff_present(votes@, best);
    }
    while i < votes.len()
        invariant
            1 <= i <= votes.len(),
            best_count == count(votes@, best),
            best_count > 0,
            forall|j: int|
                0 <= j < i ==> count(votes@, #[trigger] votes@[j]) < best_count || (count(
                    votes@,
                    votes@[j],
                ) == best_count && best <= votes@[j]),
        decreases votes.len() - i,
    {
        let candidate: u32 = votes[i];
        let c: usize = occurrences(votes, candidate);
        if c > best_count || (c == best_count && candidate < best) {
            best = candidate;
            best_count = c;
        }
        i = i + 1;
    }
    proof {
        assert forall|p: u32| #[trigger] count(votes@, p) <= count(votes@, best) && (count(
            votes@,
            p,
        ) == count(votes@, best) ==> best <= p) by {
            count_positive_iff_present(votes@, p);
            count_bounds(votes@, p);
            if count(votes@, p) > 0 {
                let j = choose|j: int| 0 <= j < votes@.len() && votes@[j] == p;
                assert(count(votes@, votes@[j]) <= best_count);
            }
        }
        assert(is_majority(votes@, best));
        majority_is_unique(votes@, best, majority_owner(votes@));
    }
    best
}

} // verus!
