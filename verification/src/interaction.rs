//! The interaction state machine: what input does to the mode and to the
//! game.
//!
//! Events are handled in batches, one batch per frame and in the order in
//! which they arrived. Closing the window and Escape end the session and
//! the batch. Space switches between editing and running. The period of
//! the simulation is adjusted only while running, and cells are painted
//! only while editing.

use vstd::prelude::*;
use crate::game::{
    cell_of_pixel, faster, is_under_pixel, paint, slower, Game, GameModel, GameState,
};
use crate::grid::{lemma_with_cell, Board, GridCell};
use crate::input::{action_of, spec_action_of, Action, InputEvent, MouseButton, SDLK_SPACE};

verus! {

/// The mode after a request to toggle.
pub open spec fn toggled(mode: GameState) -> GameState {
    match mode {
        GameState::Run => GameState::Edit,
        GameState::Edit => GameState::Run,
        GameState::Quit => GameState::Quit,
    }
}

/// The mode after an action.
pub open spec fn mode_after(mode: GameState, action: Action) -> GameState {
    match action {
        Action::Quit => GameState::Quit,
        Action::Toggle => toggled(mode),
        _ => mode,
    }
}

impl Board {
    /// Whether an action can be carried out in the given mode: painting
    /// while editing must hit a cell of the board.
    pub open spec fn accepts(self, mode: GameState, action: Action) -> bool {
        match action {
            Action::Paint { x, y, .. } => mode == GameState::Edit ==> self.under_pixel(x as int, y as int),
            _ => true,
        }
    }

    /// Whether a batch of events can be handled starting in the given
    /// mode: every event that is reached must be acceptable in the mode
    /// that the events before it lead to. Events behind one that quits are
    /// not reached.
    pub open spec fn accepts_events(self, mode: GameState, events: Seq<InputEvent>) -> bool
        decreases events.len(),
    {
        if events.len() == 0 {
            true
        } else {
            let action = spec_action_of(events.first());
            &&& self.accepts(mode, action)
            &&& action != Action::Quit ==> self.accepts_events(mode_after(mode, action), events.drop_first())
        }
    }
}

impl GameModel {
    /// The game after an action taken in the given mode.
    ///
    /// The period is adjusted only while running, and cells are painted
    /// only while editing.
    pub open spec fn after_action(self, mode: GameState, action: Action) -> GameModel {
        match action {
            Action::SpeedUp if mode == GameState::Run => GameModel {
                update_delay: faster(self.update_delay),
                ..self
            },
            Action::SlowDown if mode == GameState::Run => GameModel {
                update_delay: slower(self.update_delay),
                ..self
            },
            Action::Paint { alive, x, y } if mode == GameState::Edit => GameModel {
                board: self.board.painted(alive, x as int, y as int),
                ..self
            },
            _ => self,
        }
    }

    /// The mode and the game after a batch of events handled in order,
    /// starting in the given mode. An event that quits ends the batch:
    /// what follows it is not handled.
    pub open spec fn after_events(self, mode: GameState, events: Seq<InputEvent>) -> (GameState, GameModel)
        decreases events.len(),
    {
        if events.len() == 0 {
            (mode, self)
        } else {
            let action = spec_action_of(events.first());
            if action == Action::Quit {
                (GameState::Quit, self)
            } else {
                self.after_action(mode, action).after_events(mode_after(mode, action), events.drop_first())
            }
        }
    }
}

/// The space bar toggles, and toggling leads from editing to running and
/// from running to editing.
pub proof fn lemma_toggle_switches()
    ensures
        spec_action_of(InputEvent::KeyDown { keycode: Some(SDLK_SPACE) }) == Action::Toggle,
        mode_after(GameState::Edit, Action::Toggle) == GameState::Run,
        mode_after(GameState::Run, Action::Toggle) == GameState::Edit,
{
}

/// `Quit` is final: no action leads out of it, and none changes the game
/// in it.
pub proof fn lemma_quit_is_final(game: GameModel, action: Action)
    ensures
        mode_after(GameState::Quit, action) == GameState::Quit,
        game.after_action(GameState::Quit, action) == game,
{
}

/// `Quit` is final for batches too: whatever events arrive in it, the
/// mode stays `Quit` and the game stays as it is.
pub proof fn lemma_quit_absorbs_events(game: GameModel, events: Seq<InputEvent>)
    ensures
        game.after_events(GameState::Quit, events) == (GameState::Quit, game),
    decreases events.len(),
{
    if events.len() > 0 {
        lemma_quit_is_final(game, spec_action_of(events.first()));
        lemma_quit_absorbs_events(game, events.drop_first());
    }
}

/// Painting while editing sets the cell under the pixel, and that cell's
/// state alone: what is staged for it, every other cell, and the period
/// stay as they are.
pub proof fn lemma_paint_while_editing(game: GameModel, alive: bool, x: i32, y: i32)
    requires
        game.wf(),
        game.board.under_pixel(x as int, y as int),
    ensures
        ({
            let after = game.after_action(GameState::Edit, Action::Paint { alive, x, y });
            let cx = cell_of_pixel(x as int);
            let cy = cell_of_pixel(y as int);
            &&& after.wf()
            &&& after.update_delay == game.update_delay
            &&& after.board.width == game.board.width
            &&& after.board.height == game.board.height
            &&& after.board.alive(cx, cy) == alive
            &&& after.board.cell(cx, cy).next_state == game.board.cell(cx, cy).next_state
            &&& forall|i: int, j: int|
                game.board.in_bounds(i, j) && !(i == cx && j == cy) ==> #[trigger] after.board.cell(i, j)
                    == game.board.cell(i, j)
        }),
{
    lemma_with_cell(
        game.board,
        cell_of_pixel(x as int),
        cell_of_pixel(y as int),
        GridCell {
            alive,
            next_state: game.board.cell(cell_of_pixel(x as int), cell_of_pixel(y as int)).next_state,
        },
    );
}

/// A press of the left button while editing leaves the cell under the
/// pixel alive, and a press of the right button leaves it dead. The mode
/// stays as it is.
pub proof fn lemma_press_while_editing(game: GameModel, x: i32, y: i32)
    requires
        game.wf(),
        game.board.under_pixel(x as int, y as int),
    ensures
        ({
            let left = seq![InputEvent::MouseButtonDown { mouse_btn: MouseButton::Left, x, y }];
            let right = seq![InputEvent::MouseButtonDown { mouse_btn: MouseButton::Right, x, y }];
            let cx = cell_of_pixel(x as int);
            let cy = cell_of_pixel(y as int);
            &&& game.after_events(GameState::Edit, left).0 == GameState::Edit
            &&& game.after_events(GameState::Edit, left).1.board.alive(cx, cy)
            &&& game.after_events(GameState::Edit, right).0 == GameState::Edit
            &&& !game.after_events(GameState::Edit, right).1.board.alive(cx, cy)
        }),
{
    reveal_with_fuel(GameModel::after_events, 2);
    lemma_paint_while_editing(game, true, x, y);
    lemma_paint_while_editing(game, false, x, y);
}

/// A press of any button in any mode but editing changes neither the game
/// nor the mode.
pub proof fn lemma_press_while_not_editing(
    game: GameModel,
    mode: GameState,
    mouse_btn: MouseButton,
    x: i32,
    y: i32,
)
    requires
        mode != GameState::Edit,
    ensures
        game.after_events(mode, seq![InputEvent::MouseButtonDown { mouse_btn, x, y }]) == (mode, game),
{
    reveal_with_fuel(GameModel::after_events, 2);
}

/// Every action that is accepted keeps a well-formed game well formed.
pub proof fn lemma_after_action_wf(game: GameModel, mode: GameState, action: Action)
    requires
        game.wf(),
        game.board.accepts(mode, action),
    ensures
        game.after_action(mode, action).wf(),
        game.after_action(mode, action).board.width == game.board.width,
        game.after_action(mode, action).board.height == game.board.height,
{
    match action {
        Action::Paint { alive, x, y } => {
            if mode == GameState::Edit {
                lemma_paint_while_editing(game, alive, x, y);
            }
        },
        _ => {},
    }
}

/// Every batch of events that is accepted keeps a well-formed game well
/// formed: in particular, its period stays between one frame and one
/// second.
pub proof fn lemma_after_events_wf(game: GameModel, mode: GameState, events: Seq<InputEvent>)
    requires
        game.wf(),
        game.board.accepts_events(mode, events),
    ensures
        game.after_events(mode, events).1.wf(),
    decreases events.len(),
{
    if events.len() > 0 {
        let action = spec_action_of(events.first());
        if action != Action::Quit {
            lemma_after_action_wf(game, mode, action);
            let next = game.after_action(mode, action);
            assert(next.board.accepts_events(mode_after(mode, action), events.drop_first())) by {
                lemma_accepts_by_size(game.board, next.board, mode_after(mode, action), events.drop_first());
            }
            lemma_after_events_wf(next, mode_after(mode, action), events.drop_first());
        }
    }
}

/// Whether a batch of events is accepted depends on the board's size
/// alone.
pub proof fn lemma_accepts_by_size(a: Board, b: Board, mode: GameState, events: Seq<InputEvent>)
    requires
        a.width == b.width,
        a.height == b.height,
    ensures
        a.accepts_events(mode, events) == b.accepts_events(mode, events),
    decreases events.len(),
{
    if events.len() > 0 {
        let action = spec_action_of(events.first());
        lemma_accepts_by_size(a, b, mode_after(mode, action), events.drop_first());
    }
}

/// Carries out one action in the given mode, and moves to the mode that
/// follows it.
pub fn apply_action(game: &mut Game, game_state: &mut GameState, action: Action)
    requires
        old(game).wf(),
        old(game)@.board.accepts(*old(game_state), action),
    ensures
        final(game).wf(),
        final(game)@ == old(game)@.after_action(*old(game_state), action),
        *final(game_state) == mode_after(*old(game_state), action),
{
    match action {
        Action::Quit => {
            *game_state = GameState::Quit;
        },
        Action::Toggle => {
            *game_state = match *game_state {
                GameState::Run => GameState::Edit,
                GameState::Edit => GameState::Run,
                _ => GameState::Quit,
            }
        },
        Action::SpeedUp => {
            if *game_state == GameState::Run {
                game.increase_update_delay();
            }
        },
        Action::SlowDown => {
            if *game_state == GameState::Run {
                game.decrease_update_delay();
            }
        },
        Action::Paint { alive, x, y } => {
            if *game_state == GameState::Edit {
                paint(game, alive, x, y);
            }
        },
        Action::Ignore => {},
    }
}

/// Whether a batch of events can be handled starting in the given mode:
/// whether every press that would paint lands on the grid.
pub fn can_handle_events(game: &Game, game_state: GameState, events: &Vec<InputEvent>) -> (ok: bool)
    requires
        game.wf(),
    ensures
        ok == game@.board.accepts_events(game_state, events@),
{
    let mut mode: GameState = game_state;
    let mut i: usize = 0;
    assert(events@.skip(0) == events@);
    while i < events.len()
        invariant
            i <= events.len(),
            game.wf(),
            game@.board.accepts_events(game_state, events@) == game@.board.accepts_events(
                mode,
                events@.skip(i as int),
            ),
        decreases events.len() - i,
    {
        let action: Action = action_of(events[i]);
        proof {
            assert(events@.skip(i as int).first() == events@[i as int]);
            assert(events@.skip(i as int).drop_first() == events@.skip(i + 1));
        }
        match action {
            Action::Quit => {
                return true;
            },
            Action::Toggle => {
                mode = match mode {
                    GameState::Run => GameState::Edit,
                    GameState::Edit => GameState::Run,
                    _ => GameState::Quit,
                };
            },
            Action::Paint { x, y, .. } => {
                if mode == GameState::Edit && !is_under_pixel(game, x, y) {
                    return false;
                }
            },
            _ => {},
        }
        i += 1;
    }
    true
}

/// Handles a batch of input events in order. An event that quits ends the
/// batch: the mode becomes `Quit` and what follows is not handled.
pub fn handle_events(game: &mut Game, game_state: &mut GameState, events: &Vec<InputEvent>)
    requires
        old(game).wf(),
        old(game)@.board.accepts_events(*old(game_state), events@),
    ensures
        final(game).wf(),
        (*final(game_state), final(game)@) == old(game)@.after_events(*old(game_state), events@),
{
    let ghost board: Board = game@.board;
    let mut i: usize = 0;
    assert(events@.skip(0) == events@);
    while i < events.len()
        invariant_except_break
            i <= events.len(),
            game.wf(),
            game@.board.width == board.width,
            game@.board.height == board.height,
            board.accepts_events(*game_state, events@.skip(i as int)),
            game@.after_events(*game_state, events@.skip(i as int)) == old(game)@.after_events(
                *old(game_state),
                events@,
            ),
        ensures
            game.wf(),
            (*game_state, game@) == old(game)@.after_events(*old(game_state), events@),
        decreases events.len() - i,
    {
        let action: Action = action_of(events[i]);
        proof {
            assert(events@.skip(i as int).first() == events@[i as int]);
            assert(events@.skip(i as int).drop_first() == events@.skip(i + 1));
        }
        if action == Action::Quit {
            *game_state = GameState::Quit;
            break ;
        }
        apply_action(game, game_state, action);
        i += 1;
    }
}

} // verus!
