use game_of_life::game::{
    commit_cell, compute_cells_next_state, count_live_neighbours, update_cells_state, Game,
    GameState, CELL_SIZE,
};
use game_of_life::input::{InputEvent, MouseButton};
use game_of_life::interaction::handle_events;

/// A game of `columns` by `rows` cells in which exactly `live` are alive.
fn game_with(columns: u32, rows: u32, live: &[(u32, u32)]) -> Game {
    let mut game = Game::new(columns * CELL_SIZE, rows * CELL_SIZE);
    let mut mode = GameState::Edit;
    let events: Vec<InputEvent> = live
        .iter()
        .map(|&(x, y)| InputEvent::MouseButtonDown {
            mouse_btn: MouseButton::Left,
            x: (x * CELL_SIZE) as i32,
            y: (y * CELL_SIZE) as i32,
        })
        .collect();
    handle_events(&mut game, &mut mode, &events);
    game
}

/// The live cells of a game, row by row.
fn live_cells(game: &Game) -> Vec<(u32, u32)> {
    let grid = game.grid();
    let mut live = Vec::new();
    for y in 0..grid.height() {
        for x in 0..grid.width() {
            if grid.cell(x, y).alive {
                live.push((x, y));
            }
        }
    }
    live
}

fn step(game: &mut Game) {
    compute_cells_next_state(game);
    update_cells_state(game);
}

#[test]
fn neighbours_are_counted_in_all_eight_directions() {
    let around = [(1, 1), (2, 1), (3, 1), (1, 2), (3, 2), (1, 3), (2, 3), (3, 3)];
    for taken in 0..=around.len() {
        let game = game_with(5, 5, &around[..taken]);
        assert_eq!(count_live_neighbours(game.grid(), 2, 2), taken as u32);
    }
}

#[test]
fn a_cell_is_not_its_own_neighbour() {
    let game = game_with(5, 5, &[(2, 2)]);
    assert_eq!(count_live_neighbours(game.grid(), 2, 2), 0);
    assert_eq!(count_live_neighbours(game.grid(), 1, 1), 1);
}

#[test]
fn neighbours_outside_the_grid_are_skipped() {
    let all: Vec<(u32, u32)> = (0..3).flat_map(|y| (0..3).map(move |x| (x, y))).collect();
    let game = game_with(3, 3, &all);
    assert_eq!(count_live_neighbours(game.grid(), 0, 0), 3);
    assert_eq!(count_live_neighbours(game.grid(), 1, 0), 5);
    assert_eq!(count_live_neighbours(game.grid(), 2, 0), 3);
    assert_eq!(count_live_neighbours(game.grid(), 0, 1), 5);
    assert_eq!(count_live_neighbours(game.grid(), 1, 1), 8);
    assert_eq!(count_live_neighbours(game.grid(), 2, 2), 3);
}

#[test]
fn the_grid_does_not_wrap() {
    // A live cell in the last column is no neighbour of the first column.
    let game = game_with(4, 4, &[(3, 1)]);
    assert_eq!(count_live_neighbours(game.grid(), 0, 1), 0);
    assert_eq!(count_live_neighbours(game.grid(), 0, 0), 0);
    assert_eq!(count_live_neighbours(game.grid(), 2, 1), 1);
}

#[test]
fn three_neighbours_give_birth() {
    let mut game = game_with(6, 6, &[(1, 1), (3, 1), (2, 3)]);
    assert_eq!(count_live_neighbours(game.grid(), 2, 2), 3);
    step(&mut game);
    assert!(game.grid().cell(2, 2).alive);
}

#[test]
fn three_neighbours_keep_a_live_cell_alive() {
    let mut game = game_with(6, 6, &[(2, 2), (1, 1), (3, 1), (2, 3)]);
    step(&mut game);
    assert!(game.grid().cell(2, 2).alive);
}

#[test]
fn two_neighbours_keep_a_live_cell_alive() {
    let mut game = game_with(6, 6, &[(2, 2), (1, 1), (3, 3)]);
    step(&mut game);
    assert!(game.grid().cell(2, 2).alive);
}

#[test]
fn two_neighbours_do_not_give_birth() {
    let mut game = game_with(6, 6, &[(1, 1), (3, 3)]);
    step(&mut game);
    assert!(!game.grid().cell(2, 2).alive);
}

#[test]
fn a_live_cell_with_no_or_one_neighbour_dies() {
    let mut alone = game_with(6, 6, &[(2, 2)]);
    step(&mut alone);
    assert_eq!(live_cells(&alone), vec![]);

    let mut pair = game_with(6, 6, &[(2, 2), (3, 2)]);
    step(&mut pair);
    assert_eq!(live_cells(&pair), vec![]);
}

#[test]
fn a_live_cell_with_four_or_more_neighbours_dies() {
    let around = [(1, 1), (2, 1), (3, 1), (1, 2), (3, 2), (1, 3), (2, 3), (3, 3)];
    for taken in 4..=around.len() {
        let mut live = vec![(2, 2)];
        live.extend_from_slice(&around[..taken]);
        let mut game = game_with(6, 6, &live);
        step(&mut game);
        assert!(!game.grid().cell(2, 2).alive, "{taken} neighbours");
    }
}

#[test]
fn a_dead_cell_stays_dead_unless_it_has_three_neighbours() {
    let around = [(1, 1), (2, 1), (3, 1), (1, 2), (3, 2), (1, 3), (2, 3), (3, 3)];
    for taken in 0..=around.len() {
        let mut game = game_with(6, 6, &around[..taken]);
        step(&mut game);
        assert_eq!(game.grid().cell(2, 2).alive, taken == 3, "{taken} neighbours");
    }
}

#[test]
fn computing_stages_without_changing_any_state() {
    let mut game = game_with(6, 6, &[(1, 2), (2, 2), (3, 2)]);
    compute_cells_next_state(&mut game);
    assert_eq!(live_cells(&game), vec![(1, 2), (2, 2), (3, 2)]);
    let grid = game.grid();
    let mut staged = Vec::new();
    for y in 0..6 {
        for x in 0..6 {
            if grid.cell(x, y).next_state {
                staged.push((x, y));
            }
        }
    }
    assert_eq!(staged, vec![(2, 1), (2, 2), (2, 3)]);
}

#[test]
fn committing_takes_what_was_staged() {
    let mut game = game_with(6, 6, &[(1, 2), (2, 2), (3, 2)]);
    compute_cells_next_state(&mut game);
    update_cells_state(&mut game);
    assert_eq!(live_cells(&game), vec![(2, 1), (2, 2), (2, 3)]);
}

#[test]
fn commit_order_does_not_matter() {
    let pattern = [(1, 1), (2, 1), (3, 1), (3, 2), (2, 3), (5, 5), (6, 5), (5, 6)];

    let mut in_one_pass = game_with(9, 9, &pattern);
    step(&mut in_one_pass);

    let mut forwards = game_with(9, 9, &pattern);
    compute_cells_next_state(&mut forwards);
    for y in 0..9 {
        for x in 0..9 {
            commit_cell(&mut forwards, x, y);
        }
    }

    let mut backwards = game_with(9, 9, &pattern);
    compute_cells_next_state(&mut backwards);
    for y in (0..9).rev() {
        for x in (0..9).rev() {
            commit_cell(&mut backwards, x, y);
        }
    }

    let mut by_columns = game_with(9, 9, &pattern);
    compute_cells_next_state(&mut by_columns);
    for x in 0..9 {
        for y in (0..9).rev() {
            commit_cell(&mut by_columns, x, y);
        }
    }

    let expected = live_cells(&in_one_pass);
    // The glider has moved on and the corner of three has closed to a block.
    assert_eq!(expected, vec![(2, 0), (2, 1), (3, 1), (1, 2), (3, 2), (5, 5), (6, 5), (5, 6), (6, 6)]);
    assert_eq!(live_cells(&forwards), expected);
    assert_eq!(live_cells(&backwards), expected);
    assert_eq!(live_cells(&by_columns), expected);
}

#[test]
fn every_cell_is_judged_on_the_generation_before() {
    // Were states committed while neighbours are still being counted, the
    // row of three would not turn into a column of three.
    let mut game = game_with(5, 5, &[(0, 1), (1, 1), (2, 1)]);
    step(&mut game);
    assert_eq!(live_cells(&game), vec![(1, 0), (1, 1), (1, 2)]);
}

#[test]
fn block_is_a_still_life() {
    let block = vec![(2, 2), (3, 2), (2, 3), (3, 3)];
    let mut game = game_with(7, 7, &block);
    step(&mut game);
    assert_eq!(live_cells(&game), block);
    for _ in 0..10 {
        step(&mut game);
    }
    assert_eq!(live_cells(&game), block);
}

#[test]
fn block_in_the_top_left_corner_is_a_still_life() {
    let block = vec![(0, 0), (1, 0), (0, 1), (1, 1)];
    let mut game = game_with(4, 4, &block);
    step(&mut game);
    assert_eq!(live_cells(&game), block);
}

#[test]
fn blinker_alternates_with_period_two() {
    let horizontal = vec![(2, 3), (3, 3), (4, 3)];
    let vertical = vec![(3, 2), (3, 3), (3, 4)];
    let mut game = game_with(8, 8, &horizontal);
    step(&mut game);
    assert_eq!(live_cells(&game), vertical);
    step(&mut game);
    assert_eq!(live_cells(&game), horizontal);
    step(&mut game);
    assert_eq!(live_cells(&game), vertical);
    step(&mut game);
    assert_eq!(live_cells(&game), horizontal);
}

#[test]
fn last_row_and_column_never_evolve() {
    // Three live cells in the last column would, anywhere else, turn into
    // a row of three. Here they stay, and give birth beside them.
    let mut game = game_with(5, 5, &[(4, 1), (4, 2), (4, 3)]);
    step(&mut game);
    assert_eq!(live_cells(&game), vec![(4, 1), (3, 2), (4, 2), (4, 3)]);

    // A lone live cell in the last row does not die.
    let mut game = game_with(5, 5, &[(1, 4)]);
    step(&mut game);
    assert_eq!(live_cells(&game), vec![(1, 4)]);

    // Nor is a cell born there.
    let mut game = game_with(5, 5, &[(0, 3), (1, 3), (2, 3)]);
    step(&mut game);
    assert_eq!(live_cells(&game), vec![(1, 2), (1, 3)]);
}

#[test]
fn a_single_cell_grid_never_changes() {
    let mut game = game_with(1, 1, &[(0, 0)]);
    step(&mut game);
    assert_eq!(live_cells(&game), vec![(0, 0)]);
}

#[test]
fn committing_a_cell_that_does_not_evolve_changes_nothing() {
    let mut game = game_with(4, 4, &[(1, 1), (2, 1), (1, 2)]);
    compute_cells_next_state(&mut game);
    commit_cell(&mut game, 3, 0);
    commit_cell(&mut game, 0, 3);
    commit_cell(&mut game, 3, 3);
    assert_eq!(live_cells(&game), vec![(1, 1), (2, 1), (1, 2)]);
    commit_cell(&mut game, 2, 2);
    assert_eq!(live_cells(&game), vec![(1, 1), (2, 1), (1, 2), (2, 2)]);
}

#[test]
fn grids_that_are_not_square_evolve_alike() {
    let mut wide = game_with(9, 4, &[(5, 1), (6, 1), (7, 1)]);
    step(&mut wide);
    assert_eq!(live_cells(&wide), vec![(6, 0), (6, 1), (6, 2)]);

    let mut tall = game_with(4, 9, &[(1, 5), (1, 6), (1, 7)]);
    step(&mut tall);
    assert_eq!(live_cells(&tall), vec![(0, 6), (1, 6), (2, 6)]);
}
