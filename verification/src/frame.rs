//! The frame loop's decisions: what a frame shows, and whether the
//! simulation steps on it.
//!
//! Frames are rendered at a fixed rate. The simulation advances only while
//! running, and only on frames whose tick count is a multiple of the
//! game's period. The count starts over after a step and grows by one on
//! every other frame.

use vstd::prelude::*;
use crate::game::{compute_cells_next_state, update_cells_state, Game, GameModel, GameState, FPS};
use crate::grid::Board;
use crate::render::{
    black, clear_canvas, draw_cells, draw_grid, grid_lines, live_squares, to_screen, DrawCommand,
};

verus! {

/// Length of one frame, in nanoseconds.
pub const TICK_NANOS: u32 = 1_000_000_000 / FPS;

/// Whether the simulation steps on a frame.
pub open spec fn steps_on(mode: GameState, tick_num: nat, update_delay: nat) -> bool {
    mode == GameState::Run && tick_num % update_delay == 0
}

/// The commands that show a frame: a blank canvas, the lines between the
/// cells while editing, the live cells, and the presentation.
pub open spec fn frame_commands(mode: GameState, board: Board) -> Seq<DrawCommand> {
    seq![black(), DrawCommand::Clear] + (if mode == GameState::Edit {
        grid_lines(board)
    } else {
        Seq::empty()
    }) + live_squares(board) + seq![DrawCommand::Present]
}

/// The commands that show the game in the given mode.
pub fn render_frame(game: &Game, game_state: GameState) -> (commands: Vec<DrawCommand>)
    requires
        game.wf(),
    ensures
        commands@ == frame_commands(game_state, game@.board),
{
    let mut commands: Vec<DrawCommand> = clear_canvas(game);
    if game_state == GameState::Edit {
        let mut lines: Vec<DrawCommand> = draw_grid(game);
        commands.append(&mut lines);
    }
    let mut cells: Vec<DrawCommand> = draw_cells(game);
    commands.append(&mut cells);
    let mut present: Vec<DrawCommand> = to_screen(game);
    commands.append(&mut present);
    commands
}

/// Whether the simulation steps on the frame with the given tick count.
pub fn step_is_due(game: &Game, game_state: GameState, tick_num: u32) -> (due: bool)
    requires
        game.wf(),
    ensures
        due == steps_on(game_state, tick_num as nat, game@.update_delay),
{
    proof {
        game.lemma_view_wf();
    }
    game_state == GameState::Run && tick_num % game.update_delay() == 0
}

/// Ends a frame: steps the simulation by one generation if it is due, and
/// returns the tick count for the next frame.
pub fn end_frame(game: &mut Game, game_state: GameState, tick_num: u32) -> (next_tick: u32)
    requires
        old(game).wf(),
        !steps_on(game_state, tick_num as nat, old(game)@.update_delay) ==> tick_num < u32::MAX,
    ensures
        final(game).wf(),
        steps_on(game_state, tick_num as nat, old(game)@.update_delay) ==> next_tick == 0 && final(game)@ == (
        GameModel { board: old(game)@.board.next_generation(), ..old(game)@ }),
        !steps_on(game_state, tick_num as nat, old(game)@.update_delay) ==> next_tick == tick_num + 1
            && final(game)@ == old(game)@,
{
    if step_is_due(game, game_state, tick_num) {
        compute_cells_next_state(game);
        update_cells_state(game);
        0
    } else {
        tick_num + 1
    }
}

} // verus!
