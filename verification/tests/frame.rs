use game_of_life::frame::{end_frame, render_frame, step_is_due, TICK_NANOS};
use game_of_life::game::{paint, Game, GameState};
use game_of_life::input::{InputEvent, SDLK_UP};
use game_of_life::interaction::handle_events;
use game_of_life::render::DrawCommand;

const WHITE: DrawCommand = DrawCommand::SetDrawColor { r: 255, g: 255, b: 255 };
const BLACK: DrawCommand = DrawCommand::SetDrawColor { r: 0, g: 0, b: 0 };

fn line(x0: u32, y0: u32, x1: u32, y1: u32) -> DrawCommand {
    DrawCommand::DrawLine { x0, y0, x1, y1 }
}

fn square(x: u32, y: u32) -> DrawCommand {
    DrawCommand::FillRect { x, y, size: 16 }
}

fn live_cells(game: &Game) -> Vec<(u32, u32)> {
    let grid = game.grid();
    let mut live = Vec::new();
    for y in 0..grid.height() {
        for x in 0..grid.width() {
            if grid.cell(x, y).alive {
                live.push((x, y));
            }
        }
    }
    live
}

#[test]
fn a_frame_shows_lines_only_while_editing() {
    let mut game = Game::new(32, 32);
    paint(&mut game, true, 20, 5);
    let cells = vec![WHITE, square(16, 0)];
    let lines = vec![WHITE, line(0, 16, 32, 16), line(16, 0, 16, 32)];

    let mut editing = vec![BLACK, DrawCommand::Clear];
    editing.extend(lines);
    editing.extend(cells.clone());
    editing.push(DrawCommand::Present);
    assert_eq!(render_frame(&game, GameState::Edit), editing);

    let mut running = vec![BLACK, DrawCommand::Clear];
    running.extend(cells);
    running.push(DrawCommand::Present);
    assert_eq!(render_frame(&game, GameState::Run), running);
    assert_eq!(render_frame(&game, GameState::Quit), running);
}

#[test]
fn a_frame_lasts_a_sixtieth_of_a_second() {
    assert_eq!(TICK_NANOS, 16_666_666);
}

#[test]
fn the_simulation_stands_still_while_editing() {
    let mut game = Game::new(96, 96);
    for x in [1, 2, 3] {
        paint(&mut game, true, x * 16, 32);
    }
    let mut tick = 0;
    for expected in 1..=200 {
        tick = end_frame(&mut game, GameState::Edit, tick);
        assert_eq!(tick, expected);
    }
    assert_eq!(live_cells(&game), vec![(1, 2), (2, 2), (3, 2)]);
}

#[test]
fn the_simulation_steps_when_the_tick_is_a_multiple_of_the_period() {
    let mut game = Game::new(96, 96);
    for x in [1, 2, 3] {
        paint(&mut game, true, x * 16, 32);
    }
    let horizontal = vec![(1, 2), (2, 2), (3, 2)];
    let vertical = vec![(2, 1), (2, 2), (2, 3)];
    assert_eq!(game.update_delay(), 60);

    // Seven frames went by while editing; the next step is due at tick 60.
    let mut tick = 7;
    for expected in 8..=60 {
        tick = end_frame(&mut game, GameState::Run, tick);
        assert_eq!(tick, expected);
        assert_eq!(live_cells(&game), horizontal);
    }
    tick = end_frame(&mut game, GameState::Run, tick);
    assert_eq!(tick, 0);
    assert_eq!(live_cells(&game), vertical);

    // The count starts over at zero, which is a multiple of every period.
    tick = end_frame(&mut game, GameState::Run, tick);
    assert_eq!(tick, 0);
    assert_eq!(live_cells(&game), horizontal);
}

#[test]
fn a_shorter_period_is_due_sooner() {
    let mut game = Game::new(96, 96);
    let mut mode = GameState::Run;
    let up = InputEvent::KeyDown { keycode: Some(SDLK_UP) };
    handle_events(&mut game, &mut mode, &vec![up; 11]);
    assert_eq!(game.update_delay(), 5);
    paint(&mut game, true, 16, 16);

    assert_eq!(end_frame(&mut game, mode, 3), 4);
    assert_eq!(end_frame(&mut game, mode, 4), 5);
    assert_eq!(live_cells(&game), vec![(1, 1)]);
    assert_eq!(end_frame(&mut game, mode, 5), 0);
    assert_eq!(live_cells(&game), vec![]);
    assert_eq!(end_frame(&mut game, mode, 11), 12);
    assert_eq!(end_frame(&mut game, mode, 4_294_967_290), 0);
}

#[test]
fn nothing_steps_once_the_session_is_over() {
    let mut game = Game::new(96, 96);
    paint(&mut game, true, 16, 16);
    assert_eq!(end_frame(&mut game, GameState::Quit, 0), 1);
    assert_eq!(end_frame(&mut game, GameState::Quit, 60), 61);
    assert_eq!(live_cells(&game), vec![(1, 1)]);
}

#[test]
fn a_step_is_due_only_while_running_on_multiples_of_the_period() {
    let game = Game::new(64, 64);
    assert_eq!(game.update_delay(), 60);
    assert!(step_is_due(&game, GameState::Run, 0));
    assert!(step_is_due(&game, GameState::Run, 60));
    assert!(step_is_due(&game, GameState::Run, 180));
    assert!(!step_is_due(&game, GameState::Run, 1));
    assert!(!step_is_due(&game, GameState::Run, 59));
    assert!(!step_is_due(&game, GameState::Run, u32::MAX));
    assert!(!step_is_due(&game, GameState::Edit, 0));
    assert!(!step_is_due(&game, GameState::Edit, 60));
    assert!(!step_is_due(&game, GameState::Quit, 0));
}
