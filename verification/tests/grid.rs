use life_world::cell::{
    AliveCell, Cell, HEIGHT, MARGIN, MAX_X, MAX_Y, MIN_X, MIN_Y, WIDTH,
};
use life_world::grid::Grid;

fn alive(x: i32, y: i32, player_id: u32) -> AliveCell {
    AliveCell { x, y, player_id }
}

#[test]
fn bounds_are_the_playfield_plus_margin() {
    assert_eq!((WIDTH, HEIGHT, MARGIN), (192, 108, 5));
    assert_eq!((MIN_X, MIN_Y, MAX_X, MAX_Y), (-5, -5, 197, 113));
    assert_eq!(MAX_X, WIDTH + MARGIN);
    assert_eq!(MAX_Y, HEIGHT + MARGIN);
}

#[test]
fn keys_round_trip_and_order_cells() {
    let cells = [
        Cell { x: i32::MIN, y: i32::MIN },
        Cell { x: i32::MIN, y: i32::MAX },
        Cell { x: -1, y: 5 },
        Cell { x: 0, y: -3 },
        Cell { x: 0, y: 0 },
        Cell { x: 0, y: 1 },
        Cell { x: 1, y: i32::MIN },
        Cell { x: i32::MAX, y: i32::MAX },
    ];
    for cell in cells {
        assert_eq!(Cell::from_key(cell.key()), cell);
    }
    for pair in cells.windows(2) {
        assert!(pair[0].key() < pair[1].key());
    }
    assert_eq!(Cell { x: i32::MIN, y: i32::MIN }.key(), 0);
    assert_eq!(Cell { x: i32::MAX, y: i32::MAX }.key(), u64::MAX);
    assert_eq!(Cell { x: 0, y: 0 }.key(), 0x8000_0000_8000_0000);
    assert_eq!(Cell::from_key(0x8000_0001_7FFF_FFFF), Cell { x: 1, y: -1 });
}

#[test]
fn cell_and_alive_cell_convert() {
    let cell = Cell { x: -4, y: 9 };
    assert_eq!(cell.owned_by(12), alive(-4, 9, 12));
    assert_eq!(alive(-4, 9, 12).cell(), cell);
}

#[test]
fn new_grid_is_empty() {
    let grid = Grid::new();
    assert_eq!(grid.all(), vec![]);
    assert_eq!(grid.get(0, 0), None);
    assert!(!grid.is_alive(Cell { x: 0, y: 0 }));
}

#[test]
fn insert_then_get() {
    let mut grid = Grid::new();
    grid.insert(alive(3, -2, 8));
    assert_eq!(grid.get(3, -2), Some(alive(3, -2, 8)));
    assert_eq!(grid.get(-2, 3), None);
    assert!(grid.is_alive(Cell { x: 3, y: -2 }));
}

#[test]
fn insert_on_an_alive_coordinate_replaces_the_owner() {
    let mut grid = Grid::new();
    grid.insert(alive(1, 1, 4));
    grid.insert(alive(1, 1, 6));
    assert_eq!(grid.all(), vec![alive(1, 1, 6)]);
}

#[test]
fn delete_removes_only_that_cell() {
    let mut grid = Grid::from_cells(&vec![alive(1, 1, 4), alive(1, 2, 4)]);
    grid.delete(1, 1);
    assert_eq!(grid.all(), vec![alive(1, 2, 4)]);
    grid.delete(1, 1);
    grid.delete(7, 7);
    assert_eq!(grid.all(), vec![alive(1, 2, 4)]);
}

#[test]
fn all_is_ordered_by_x_then_y() {
    let grid = Grid::from_cells(&vec![
        alive(2, 0, 1),
        alive(-1, 5, 2),
        alive(2, -7, 3),
        alive(0, 0, 4),
        alive(-1, -5, 5),
    ]);
    assert_eq!(
        grid.all(),
        vec![alive(-1, -5, 5), alive(-1, 5, 2), alive(0, 0, 4), alive(2, -7, 3), alive(2, 0, 1)]
    );
}

#[test]
fn from_cells_keeps_the_last_owner_of_a_repeated_coordinate() {
    let grid = Grid::from_cells(&vec![alive(0, 0, 1), alive(5, 5, 2), alive(0, 0, 3)]);
    assert_eq!(grid.all(), vec![alive(0, 0, 3), alive(5, 5, 2)]);
}

#[test]
fn claim_marks_cells_under_one_owner() {
    let mut grid = Grid::from_cells(&vec![alive(0, 0, 1)]);
    grid.claim(&vec![Cell { x: 1, y: 0 }, Cell { x: 0, y: 0 }, Cell { x: 1, y: 0 }], 2);
    assert_eq!(grid.all(), vec![alive(0, 0, 2), alive(1, 0, 2)]);
    grid.claim(&vec![], 9);
    assert_eq!(grid.all(), vec![alive(0, 0, 2), alive(1, 0, 2)]);
}

#[test]
fn len_counts_alive_cells() {
    let mut grid = Grid::new();
    assert_eq!(grid.len(), 0);
    assert!(grid.is_empty());
    grid.insert(alive(0, 0, 1));
    grid.insert(alive(0, 1, 1));
    grid.insert(alive(0, 0, 2));
    assert_eq!(grid.len(), 2);
    assert!(!grid.is_empty());
    grid.delete(0, 0);
    grid.delete(0, 1);
    assert!(grid.is_empty());
}
