use life_world::board::Decision;
use life_world::cell::{AliveCell, Cell};
use life_world::grid::Grid;
use life_world::tick::{plan_tick, Change};

fn alive(x: i32, y: i32, player_id: u32) -> AliveCell {
    AliveCell { x, y, player_id }
}

fn grid_of(cells: &[AliveCell]) -> Grid {
    Grid::from_cells(&cells.to_vec())
}

#[test]
fn empty_grid_stays_empty() {
    let mut grid = Grid::new();
    grid.tick();
    assert_eq!(grid.all(), vec![]);
    assert_eq!(plan_tick(&grid), vec![]);
}

#[test]
fn blinker_oscillates_and_keeps_its_owner() {
    let start = vec![alive(0, 0, 7), alive(1, 0, 7), alive(2, 0, 7)];
    let mut grid = grid_of(&start);
    grid.tick();
    assert_eq!(grid.all(), vec![alive(1, -1, 7), alive(1, 0, 7), alive(1, 1, 7)]);
    grid.tick();
    assert_eq!(grid.all(), start);
}

#[test]
fn blinker_plan_lists_changes_in_order() {
    let grid = grid_of(&[alive(0, 0, 7), alive(1, 0, 7), alive(2, 0, 7)]);
    let plan = plan_tick(&grid);
    assert_eq!(
        plan,
        vec![
            Change { cell: Cell { x: 0, y: 0 }, decision: Decision::Death },
            Change { cell: Cell { x: 1, y: -1 }, decision: Decision::Birth { owner: 7 } },
            Change { cell: Cell { x: 1, y: 1 }, decision: Decision::Birth { owner: 7 } },
            Change { cell: Cell { x: 2, y: 0 }, decision: Decision::Death },
        ]
    );
    assert_eq!(grid.all().len(), 3);
}

#[test]
fn applying_the_plan_is_the_tick() {
    let start = vec![alive(3, 3, 1), alive(4, 3, 2), alive(5, 3, 1), alive(4, 4, 9)];
    let mut by_plan = grid_of(&start);
    let plan = plan_tick(&by_plan);
    by_plan.apply_all(&plan);
    let mut by_tick = grid_of(&start);
    by_tick.tick();
    assert_eq!(by_plan.all(), by_tick.all());
}

#[test]
fn cell_past_the_margin_is_culled_despite_two_neighbors() {
    // (198, 50) has exactly two live neighbors and would survive by the rule.
    let mut grid = grid_of(&[alive(198, 50, 1), alive(197, 49, 1), alive(197, 51, 1)]);
    let plan = plan_tick(&grid);
    assert!(plan.contains(&Change { cell: Cell { x: 198, y: 50 }, decision: Decision::Cull }));
    grid.tick();
    assert_eq!(grid.get(198, 50), None);
    assert_eq!(grid.all(), vec![alive(197, 50, 1)]);
}

#[test]
fn cell_on_the_margin_survives_with_two_neighbors() {
    let mut grid = grid_of(&[alive(197, 50, 1), alive(196, 49, 1), alive(196, 51, 1)]);
    grid.tick();
    assert_eq!(grid.get(197, 50), Some(alive(197, 50, 1)));
}

#[test]
fn culling_rectangle_edges() {
    for (x, y, kept) in [
        (-5, -5, true),
        (197, 113, true),
        (-6, 0, false),
        (198, 0, false),
        (0, -6, false),
        (0, 114, false),
    ] {
        // A lone cell goes either way: inside it dies of loneliness, outside it is culled.
        let mut grid = grid_of(&[alive(x, y, 1)]);
        let plan = plan_tick(&grid);
        let expected = if kept { Decision::Death } else { Decision::Cull };
        assert_eq!(plan, vec![Change { cell: Cell { x, y }, decision: expected }]);
        assert_eq!(Cell { x, y }.in_bounds(), kept);
        grid.tick();
        assert_eq!(grid.all(), vec![]);
    }
}

#[test]
fn out_of_bounds_cell_that_would_also_die_is_removed_once() {
    let grid = grid_of(&[alive(500, 500, 3)]);
    let plan = plan_tick(&grid);
    assert_eq!(plan, vec![Change { cell: Cell { x: 500, y: 500 }, decision: Decision::Cull }]);
}

#[test]
fn birth_is_not_clipped_but_culled_one_tick_later() {
    // Three cells in column 197 give birth in column 198, outside the rectangle.
    let mut grid = grid_of(&[alive(197, 10, 4), alive(197, 11, 4), alive(197, 12, 4)]);
    grid.tick();
    assert_eq!(grid.all(), vec![alive(196, 11, 4), alive(197, 11, 4), alive(198, 11, 4)]);
    grid.tick();
    assert_eq!(grid.get(198, 11), None);
}

#[test]
fn majority_owns_the_newborn() {
    // (1, 1) is dead with three live neighbors: two of player 9, one of player 2.
    let mut grid = grid_of(&[alive(0, 0, 9), alive(2, 0, 9), alive(1, 2, 2)]);
    grid.tick();
    assert_eq!(grid.get(1, 1), Some(alive(1, 1, 9)));

    let mut grid = grid_of(&[alive(0, 0, 2), alive(2, 0, 9), alive(1, 2, 2)]);
    grid.tick();
    assert_eq!(grid.get(1, 1), Some(alive(1, 1, 2)));
}

#[test]
fn three_way_tie_goes_to_the_smallest_id_every_time() {
    let orders = [
        [alive(0, 0, 5), alive(2, 0, 3), alive(1, 2, 8)],
        [alive(1, 2, 8), alive(2, 0, 3), alive(0, 0, 5)],
        [alive(2, 0, 3), alive(0, 0, 5), alive(1, 2, 8)],
    ];
    for order in orders {
        for _ in 0..10 {
            let mut grid = grid_of(&order);
            grid.tick();
            assert_eq!(grid.get(1, 1), Some(alive(1, 1, 3)));
        }
    }
    // The same neighbors with the owners moved around: still the smallest id.
    let mut grid = grid_of(&[alive(0, 0, 8), alive(2, 0, 5), alive(1, 2, 3)]);
    grid.tick();
    assert_eq!(grid.get(1, 1), Some(alive(1, 1, 3)));
}

#[test]
fn block_is_a_still_life() {
    let block = vec![alive(10, 10, 1), alive(10, 11, 2), alive(11, 10, 3), alive(11, 11, 4)];
    let mut grid = grid_of(&block);
    assert_eq!(plan_tick(&grid), vec![]);
    grid.tick();
    assert_eq!(grid.all(), block);
}

#[test]
fn survivors_keep_their_owner() {
    let mut grid = grid_of(&[alive(0, 0, 1), alive(1, 0, 2), alive(2, 0, 3)]);
    grid.tick();
    assert_eq!(grid.get(1, 0), Some(alive(1, 0, 2)));
}

#[test]
fn crowded_cell_dies() {
    // The center of a plus has four live neighbors.
    let mut grid =
        grid_of(&[alive(5, 5, 1), alive(4, 5, 1), alive(6, 5, 1), alive(5, 4, 1), alive(5, 6, 1)]);
    grid.tick();
    assert_eq!(grid.get(5, 5), None);
    assert_eq!(grid.all().len(), 8);
}

#[test]
fn cells_at_the_edge_of_the_coordinate_range_do_not_overflow() {
    let max = i32::MAX;
    let min = i32::MIN;
    let mut grid = grid_of(&[alive(max, 0, 1), alive(max, 1, 1), alive(max, 2, 1)]);
    grid.tick();
    assert_eq!(grid.all(), vec![alive(max - 1, 1, 1)]);

    let mut grid = grid_of(&[alive(min, min, 2), alive(min + 1, min, 2), alive(min, min + 1, 2)]);
    grid.tick();
    assert_eq!(grid.all(), vec![alive(min + 1, min + 1, 2)]);

    let mut grid = grid_of(&[alive(0, max, 1), alive(1, max, 1), alive(2, max, 1)]);
    grid.tick();
    assert_eq!(grid.all(), vec![alive(1, max - 1, 1)]);
}

fn next_number(seed: &mut u64) -> u64 {
    *seed = seed.wrapping_mul(6364136223846793005).wrapping_add(1442695040888963407);
    *seed >> 33
}

/// The next generation, cell by cell, straight from the rule.
fn next_by_hand(cells: &[AliveCell]) -> Vec<AliveCell> {
    let owner_at = |x: i32, y: i32| cells.iter().find(|c| c.x == x && c.y == y).map(|c| c.player_id);
    let mut next = Vec::new();
    for x in -8..=210 {
        for y in -8..=20 {
            let mut votes = Vec::new();
            for dx in -1..=1 {
                for dy in -1..=1 {
                    if (dx, dy) != (0, 0) {
                        if let Some(owner) = owner_at(x + dx, y + dy) {
                            votes.push(owner);
                        }
                    }
                }
            }
            let inside = (-5..=197).contains(&x) && (-5..=113).contains(&y);
            match owner_at(x, y) {
                Some(owner) => {
                    if inside && (votes.len() == 2 || votes.len() == 3) {
                        next.push(alive(x, y, owner));
                    }
                }
                None => {
                    if votes.len() == 3 {
                        let most = votes
                            .iter()
                            .map(|v| votes.iter().filter(|w| *w == v).count())
                            .max()
                            .unwrap();
                        let owner = votes
                            .iter()
                            .filter(|v| votes.iter().filter(|w| w == v).count() == most)
                            .min()
                            .unwrap();
                        next.push(alive(x, y, *owner));
                    }
                }
            }
        }
    }
    next
}

#[test]
fn tick_agrees_with_the_rule_on_scattered_boards() {
    let mut seed: u64 = 2024;
    for round in 0..12 {
        // Two patches: one in the middle, one across the right edge of the rectangle.
        let mut cells = Vec::new();
        for _ in 0..60 {
            let x = (next_number(&mut seed) % 10) as i32;
            let y = (next_number(&mut seed) % 10) as i32;
            let owner = (next_number(&mut seed) % 3) as u32 + 1;
            let x = if round % 2 == 0 { x } else { x + 191 };
            if !cells.iter().any(|c: &AliveCell| c.x == x && c.y == y) {
                cells.push(alive(x, y, owner));
            }
        }
        let mut grid = grid_of(&cells);
        for _ in 0..4 {
            let expected = next_by_hand(&grid.all());
            grid.tick();
            assert_eq!(grid.all(), expected);
        }
    }
}
