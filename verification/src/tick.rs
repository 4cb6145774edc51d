//! One generation: every candidate decided against the same snapshot, and the
//! decisions carried out as a batch of point changes.

use vstd::prelude::*;
use crate::cell::Cell;
use crate::board::{Board, Decision, carry_out, is_candidate, step, verdict};
use crate::grid::{Grid, precedes};
use crate::neighbors::{Candidate, aggregate, aggregates};
use crate::rules::{decide, decision_is_verdict};

verus! {

/// One point change of a tick: what happens at one cell.
#[derive(Clone, Copy, Debug, PartialEq, Eq, Structural)]
pub struct Change {
    pub cell: Cell,
    pub decision: Decision,
}

/// Whether `plan` holds the changes of one tick on board `b`: for every cell
/// at which something changes, once, the decision of the rule, ordered by `x`
/// and then by `y`.
pub open spec fn plans(b: Board, plan: Seq<Change>) -> bool {
    &&& forall|i: int|
        0 <= i < plan.len() ==> (#[trigger] plan[i]).decision == verdict(b, plan[i].cell)
            && plan[i].decision != Decision::Keep
    &&& forall|c: Cell|
        verdict(b, c) != Decision::Keep ==> exists|i: int|
            0 <= i < plan.len() && (#[trigger] plan[i]).cell == c
    &&& forall|i: int, j: int|
        0 <= i < j < plan.len() ==> precedes((#[trigger] plan[i]).cell, (#[trigger] plan[j]).cell)
}

/// The board after the changes of `plan` have been carried out in order.
pub open spec fn carried_out(b: Board, plan: Seq<Change>) -> Board
    decreases plan.len(),
{
    if plan.len() == 0 {
        b
    } else {
        carry_out(carried_out(b, plan.drop_last()), plan.last().cell, plan.last().decision)
    }
}

/// Whether boards `a` and `b` agree at `c`.
spec fn same_at(a: Board, b: Board, c: Cell) -> bool {
    a.contains_key(c) == b.contains_key(c) && (a.contains_key(c) ==> a[c] == b[c])
}

/// After the first `n` changes of a plan, the cells changed so far are as in
/// the next generation, and the others as before.
proof fn carried_prefix(b: Board, plan: Seq<Change>, n: int, c: Cell)
    requires
        plans(b, plan),
        0 <= n <= plan.len(),
    ensures
        (exists|k: int| 0 <= k < n && (#[trigger] plan[k]).cell == c) ==> same_at(
            carried_out(b, plan.take(n)),
            step(b),
            c,
        ),
        !(exists|k: int| 0 <= k < n && (#[trigger] plan[k]).cell == c) ==> same_at(
            carried_out(b, plan.take(n)),
            b,
            c,
        ),
    decreases n,
{
    if n > 0 {
        let last = plan[n - 1];
        assert(plan.take(n).drop_last() =~= plan.take(n - 1));
        assert(plan.take(n).last() == last);
        carried_prefix(b, plan, n - 1, c);
        if last.cell == c {
            if exists|k: int| 0 <= k < n - 1 && (#[trigger] plan[k]).cell == c {
                let k = choose|k: int| 0 <= k < n - 1 && (#[trigger] plan[k]).cell == c;
                assert(precedes(plan[k].cell, plan[n - 1].cell));
            }
        } else {
            if exists|k: int| 0 <= k < n && (#[trigger] plan[k]).cell == c {
                let k = choose|k: int| 0 <= k < n && (#[trigger] plan[k]).cell == c;
                assert(0 <= k < n - 1 && plan[k].cell == c);
            }
        }
    }
}

/// Carrying out the plan of a tick gives the next generation.
pub proof fn plan_gives_step(b: Board, plan: Seq<Change>)
    requires
        plans(b, plan),
    ensures
        carried_out(b, plan) == step(b),
{
    assert(plan.take(plan.len() as int) =~= plan);
    let after = carried_out(b, plan);
    assert forall|c: Cell| #[trigger]
        after.contains_key(c) == step(b).contains_key(c) && (after.contains_key(c) ==> after[c]
            == step(b)[c]) by {
        carried_prefix(b, plan, plan.len() as int, c);
        if !(exists|k: int| 0 <= k < plan.len() && (#[trigger] plan[k]).cell == c) {
            assert(verdict(b, c) == Decision::Keep);
        }
    }
    assert(after =~= step(b));
}

/// The changes that the rule makes at `cells`, in the order of `cells`: one for
/// each cell at which something changes.
pub open spec fn changes_at(b: Board, cells: Seq<Cell>) -> Seq<Change>
    decreases cells.len(),
{
    if cells.len() == 0 {
        Seq::empty()
    } else {
        let before = changes_at(b, cells.drop_last());
        let decision = verdict(b, cells.last());
        if decision == Decision::Keep {
            before
        } else {
            before.push(Change { cell: cells.last(), decision })
        }
    }
}

/// The changes at an ordered run of cells are ordered too, and hold the
/// decision of the rule for exactly those of the cells at which something
/// changes.
proof fn changes_at_ordered_cells(b: Board, cells: Seq<Cell>)
    requires
        forall|i: int, j: int| 0 <= i < j < cells.len() ==> precedes(cells[i], cells[j]),
    ensures
        forall|k: int|
            0 <= k < changes_at(b, cells).len() ==> (#[trigger] changes_at(b, cells)[k]).decision
                == verdict(b, changes_at(b, cells)[k].cell) && changes_at(b, cells)[k].decision
                != Decision::Keep,
        forall|k: int|
            0 <= k < changes_at(b, cells).len() ==> exists|j: int|
                0 <= j < cells.len() && #[trigger] cells[j] == (#[trigger] changes_at(
                    b,
                    cells,
                )[k]).cell,
        forall|j: int|
            0 <= j < cells.len() && verdict(b, #[trigger] cells[j]) != Decision::Keep
                ==> exists|k: int|
                0 <= k < changes_at(b, cells).len() && (#[trigger] changes_at(b, cells)[k]).cell
                    == cells[j],
        forall|k: int, l: int|
            0 <= k < l < changes_at(b, cells).len() ==> precedes(
                (#[trigger] changes_at(b, cells)[k]).cell,
                (#[trigger] changes_at(b, cells)[l]).cell,
            ),
    decreases cells.len(),
{
    if cells.len() > 0 {
        let front = cells.drop_last();
        let last = cells.len() - 1;
        let before = changes_at(b, front);
        let plan = changes_at(b, cells);
        changes_at_ordered_cells(b, front);
        assert forall|k: int| 0 <= k < plan.len() implies exists|j: int|
            0 <= j < cells.len() && #[trigger] cells[j] == (#[trigger] plan[k]).cell by {
            if k < before.len() {
                assert(plan[k] == before[k]);
                let j = choose|j: int|
                    0 <= j < front.len() && #[trigger] front[j] == before[k].cell;
                assert(cells[j] == plan[k].cell);
            } else {
                assert(cells[last] == plan[k].cell);
            }
        }
        assert forall|j: int|
            0 <= j < cells.len() && verdict(b, #[trigger] cells[j])
                != Decision::Keep implies exists|k: int|
            0 <= k < plan.len() && (#[trigger] plan[k]).cell == cells[j] by {
            if j < last {
                assert(front[j] == cells[j]);
                let k = choose|k: int|
                    0 <= k < before.len() && (#[trigger] before[k]).cell == front[j];
                assert(plan[k] == before[k]);
            } else {
                assert(plan[plan.len() - 1].cell == cells[j]);
            }
        }
        assert forall|k: int, l: int| 0 <= k < l < plan.len() implies precedes(
            (#[trigger] plan[k]).cell,
            (#[trigger] plan[l]).cell,
        ) by {
            assert(plan[k] == before[k]);
            if l < before.len() {
                assert(plan[l] == before[l]);
            } else {
                let j = choose|j: int|
                    0 <= j < front.len() && #[trigger] front[j] == before[k].cell;
                assert(precedes(cells[j], cells[last]));
            }
        }
        assert forall|k: int| 0 <= k < plan.len() implies (#[trigger] plan[k]).decision
            == verdict(b, plan[k].cell) && plan[k].decision != Decision::Keep by {
            if k < before.len() {
                assert(plan[k] == before[k]);
            }
        }
    }
}

/// Decides every candidate of `grid` against the grid as it stands, and
/// returns the changes that one tick makes.  The grid itself is not touched.
pub fn plan_tick(grid: &Grid) -> (plan: Vec<Change>)
    ensures
        plans(grid@, plan@),
{
    let candidates = aggregate(grid);
    let ghost cells = candidates@.map_values(|c: Candidate| c.cell);
    let mut plan: Vec<Change> = Vec::new();
    let mut i: usize = 0;
    while i < candidates.len()
        invariant
            i <= candidates.len(),
            aggregates(grid@, candidates@),
            cells == candidates@.map_values(|c: Candidate| c.cell),
            plan@ == changes_at(grid@, cells.take(i as int)),
        decreases candidates.len() - i,
    {
        let cell = candidates[i].cell;
        let is_alive = grid.is_alive(cell);
        let decision = decide(cell, is_alive, &candidates[i].votes);
        proof {
            decision_is_verdict(grid@, cell, candidates[i as int].votes@);
            assert(cells.take(i + 1).drop_last() =~= cells.take(i as int));
            assert(cells.take(i + 1).last() == cell);
        }
        match decision {
            Decision::Keep => {},
            _ => {
                plan.push(Change { cell, decision });
            },
        }
        i = i + 1;
    }
    proof {
        assert(cells.take(i as int) =~= cells);
        assert forall|j: int, k: int| 0 <= j < k < cells.len() implies precedes(
            cells[j],
            cells[k],
        ) by {
            assert(precedes(candidates[j].cell, candidates[k].cell));
        }
        changes_at_ordered_cells(grid@, cells);
        assert forall|c: Cell| verdict(grid@, c) != Decision::Keep implies exists|k: int|
            0 <= k < plan.len() && (#[trigger] plan[k]).cell == c by {
            assert(is_candidate(grid@, c));
            let j = choose|j: int|
                0 <= j < candidates.len() && (#[trigger] candidates[j]).cell == c;
            assert(cells[j] == c);
        }
    }
    plan
}

impl Grid {
    /// Carries out one change.
    pub fn apply(&mut self, change: Change)
        ensures
            final(self)@ == carry_out(old(self)@, change.cell, change.decision),
    {
        match change.decision {
            Decision::Cull => {
                self.delete(change.cell.x, change.cell.y);
            },
            Decision::Death => {
                self.delete(change.cell.x, change.cell.y);
            },
            Decision::Birth { owner } => {
                self.insert(change.cell.owned_by(owner));
            },
            Decision::Keep => {},
        }
    }

    /// Carries out the changes of `plan` in order.
    pub fn apply_all(&mut self, plan: &Vec<Change>)
        ensures
            final(self)@ == carried_out(old(self)@, plan@),
    {
        let mut i: usize = 0;
        while i < plan.len()
            invariant
                i <= plan.len(),
                self@ == carried_out(old(self)@, plan@.take(i as int)),
            decreases plan.len() - i,
        {
            proof {
                assert(plan@.take(i + 1).drop_last() =~= plan@.take(i as int));
            }
            self.apply(plan[i]);
            i = i + 1;
        }
        proof {
            assert(plan@.take(i as int) =~= plan@);
        }
    }

    /// Advances the grid by one generation.
    ///
    /// The whole grid is read once, every candidate is decided against that
    /// snapshot, and only then are the decisions carried out.
    pub fn tick(&mut self)
        ensures
            final(self)@ == step(old(self)@),
    {
        let plan = plan_tick(self);
        proof {
            plan_gives_step(self@, plan@);
        }
        self.apply_all(&plan);
    }
}

} // verus!
