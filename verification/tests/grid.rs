use game_of_life::grid::{CellGrid, GridCell};

#[test]
fn new_grid_has_requested_size() {
    let grid = CellGrid::new(7, 3);
    assert_eq!(grid.width(), 7);
    assert_eq!(grid.height(), 3);
}

#[test]
fn new_grid_is_all_dead_with_nothing_staged() {
    let grid = CellGrid::new(5, 4);
    for y in 0..4 {
        for x in 0..5 {
            assert_eq!(*grid.cell(x, y), GridCell { alive: false, next_state: false });
        }
    }
}

#[test]
fn smallest_grid_has_one_cell() {
    let mut grid = CellGrid::new(1, 1);
    assert!(!grid.cell(0, 0).alive);
    grid.cell_mut(0, 0).alive = true;
    assert!(grid.cell(0, 0).alive);
}

#[test]
fn writing_a_cell_changes_that_cell_alone() {
    let mut grid = CellGrid::new(4, 3);
    grid.cell_mut(2, 1).alive = true;
    grid.cell_mut(3, 2).next_state = true;
    for y in 0..3 {
        for x in 0..4 {
            let expected = GridCell { alive: (x, y) == (2, 1), next_state: (x, y) == (3, 2) };
            assert_eq!(*grid.cell(x, y), expected, "cell ({x}, {y})");
        }
    }
}

#[test]
fn cells_of_one_row_and_one_column_are_distinct() {
    // Row-major storage: (3, 0) and (0, 1) are neighbours in memory on a
    // grid four cells wide, and must not be confused.
    let mut grid = CellGrid::new(4, 2);
    grid.cell_mut(3, 0).alive = true;
    assert!(grid.cell(3, 0).alive);
    assert!(!grid.cell(0, 1).alive);
    grid.cell_mut(0, 1).alive = true;
    grid.cell_mut(3, 0).alive = false;
    assert!(!grid.cell(3, 0).alive);
    assert!(grid.cell(0, 1).alive);
}

#[test]
fn corner_cells_are_reachable() {
    let mut grid = CellGrid::new(6, 5);
    for (x, y) in [(0, 0), (5, 0), (0, 4), (5, 4)] {
        grid.cell_mut(x, y).alive = true;
    }
    let mut alive = 0;
    for y in 0..5 {
        for x in 0..6 {
            if grid.cell(x, y).alive {
                alive += 1;
            }
        }
    }
    assert_eq!(alive, 4);
}
