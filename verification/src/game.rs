//! The game: a grid and the period of the simulation, with the passes
//! that make a generation and the operations that input leads to.

use vstd::prelude::*;
use crate::grid::{lemma_board_ext, lemma_from_fn, lemma_with_cell, Board, CellGrid, GridCell};
use crate::life::lemma_commit_one;

verus! {

/// Frames rendered per second.
pub const FPS: u32 = 60;

/// Side of a cell on screen, in pixels.
pub const CELL_SIZE: u32 = 16;

/// By how many frames one adjustment changes the period of the simulation.
pub const RATE_STEP: u32 = FPS / 12;

/// The interaction mode.
#[derive(Clone, Copy, Debug, PartialEq, Eq, Structural)]
pub enum GameState {
    /// Cells can be painted; the simulation stands still.
    Edit,
    /// The simulation advances; cells cannot be painted.
    Run,
    /// The session is over. No event leaves this mode.
    Quit,
}

/// The mathematical model of a game.
pub struct GameModel {
    /// The cells.
    pub board: Board,
    /// How many frames pass between two steps of the simulation.
    pub update_delay: nat,
}

impl GameModel {
    /// A game is well formed when its board is, the board's size in pixels
    /// fits `u32`, and the period lies between one frame and one second.
    pub open spec fn wf(self) -> bool {
        &&& self.board.wf()
        &&& self.board.width * CELL_SIZE <= u32::MAX
        &&& self.board.height * CELL_SIZE <= u32::MAX
        &&& 1 <= self.update_delay <= FPS
    }
}

/// The period after one request to speed up: shorter by one step, but
/// never shorter than one frame.
pub open spec fn faster(update_delay: nat) -> nat {
    if update_delay > RATE_STEP {
        (update_delay - RATE_STEP) as nat
    } else {
        1
    }
}

/// The period after one request to slow down: longer by one step while
/// that stays within one second, and one second otherwise.
pub open spec fn slower(update_delay: nat) -> nat {
    if update_delay <= FPS - RATE_STEP {
        (update_delay + RATE_STEP) as nat
    } else {
        FPS as nat
    }
}

/// The column or row of the cell under a pixel coordinate.
pub open spec fn cell_of_pixel(p: int) -> int {
    p / (CELL_SIZE as int)
}

impl Board {
    /// Whether pixel `(x, y)` lies on a cell of the board.
    pub open spec fn under_pixel(self, x: int, y: int) -> bool {
        0 <= x && 0 <= y && self.in_bounds(cell_of_pixel(x), cell_of_pixel(y))
    }

    /// This board with the cell under pixel `(x, y)` set alive or dead.
    pub open spec fn painted(self, alive: bool, x: int, y: int) -> Board {
        self.with_cell(
            cell_of_pixel(x),
            cell_of_pixel(y),
            GridCell { alive, next_state: self.cell(cell_of_pixel(x), cell_of_pixel(y)).next_state },
        )
    }
}

/// The period after a run of requests, in order: `true` asks to speed up,
/// `false` to slow down.
pub open spec fn after_adjustments(update_delay: nat, speed_ups: Seq<bool>) -> nat
    decreases speed_ups.len(),
{
    if speed_ups.len() == 0 {
        update_delay
    } else if speed_ups.last() {
        faster(after_adjustments(update_delay, speed_ups.drop_last()))
    } else {
        slower(after_adjustments(update_delay, speed_ups.drop_last()))
    }
}

/// However often the simulation is sped up or slowed down, its period
/// stays between one frame and one second.
pub proof fn lemma_period_stays_clamped(update_delay: nat, speed_ups: Seq<bool>)
    requires
        1 <= update_delay <= FPS,
    ensures
        1 <= after_adjustments(update_delay, speed_ups) <= FPS,
    decreases speed_ups.len(),
{
    if speed_ups.len() > 0 {
        lemma_period_stays_clamped(update_delay, speed_ups.drop_last());
    }
}

/// A game: the grid and the period of the simulation.
pub struct Game {
    grid: CellGrid,
    update_delay: u32,
}

impl View for Game {
    type V = GameModel;

    closed spec fn view(&self) -> GameModel {
        GameModel { board: self.grid@, update_delay: self.update_delay as nat }
    }
}

impl Game {
    /// The game's invariant: a well-formed grid and a well-formed view.
    pub closed spec fn wf(&self) -> bool {
        self.grid.wf() && self@.wf()
    }

    /// A well-formed game has a well-formed view.
    pub proof fn lemma_view_wf(&self)
        requires
            self.wf(),
        ensures
            self@.wf(),
    {
    }

    /// Creates the game for a window of `width` by `height` pixels. The
    /// grid has as many whole cells as fit; all are dead. The simulation
    /// starts at one step per second.
    pub fn new(width: u32, height: u32) -> (game: Self)
        requires
            width >= CELL_SIZE,
            height >= CELL_SIZE,
            (width / CELL_SIZE) * (height / CELL_SIZE) <= u32::MAX,
        ensures
            game.wf(),
            game@ == (GameModel {
                board: Board::blank((width / CELL_SIZE) as nat, (height / CELL_SIZE) as nat),
                update_delay: FPS as nat,
            }),
    {
        let width: u32 = width / CELL_SIZE;
        let height: u32 = height / CELL_SIZE;
        let game = Self { grid: CellGrid::new(width, height), update_delay: FPS };
        proof {
            game.grid.lemma_view_wf();
        }
        game
    }

    /// The grid.
    pub fn grid(&self) -> (grid: &CellGrid)
        requires
            self.wf(),
        ensures
            grid.wf(),
            grid@ == self@.board,
    {
        &self.grid
    }

    /// Width of the grid on screen, in pixels.
    pub fn pixel_width(&self) -> (w: u32)
        requires
            self.wf(),
        ensures
            w == self@.board.width * CELL_SIZE,
    {
        self.grid.width() * CELL_SIZE
    }

    /// Height of the grid on screen, in pixels.
    pub fn pixel_height(&self) -> (h: u32)
        requires
            self.wf(),
        ensures
            h == self@.board.height * CELL_SIZE,
    {
        self.grid.height() * CELL_SIZE
    }

    /// How many frames pass between two steps of the simulation.
    pub fn update_delay(&self) -> (delay: u32)
        ensures
            delay == self@.update_delay,
    {
        self.update_delay
    }

    /// Speeds the simulation up: the period between two steps gets one
    /// step shorter, but never shorter than one frame.
    pub fn increase_update_delay(&mut self)
        requires
            old(self).wf(),
        ensures
            final(self).wf(),
            final(self)@ == (GameModel { update_delay: faster(old(self)@.update_delay), ..old(self)@ }),
    {
        let current_update_delay: u32 = self.update_delay;

        if current_update_delay > RATE_STEP {
            self.update_delay = current_update_delay - RATE_STEP;
        } else {
            self.update_delay = 1;
        }
    }

    /// Slows the simulation down: the period between two steps gets one
    /// step longer, but never longer than one second.
    pub fn decrease_update_delay(&mut self)
        requires
            old(self).wf(),
        ensures
            final(self).wf(),
            final(self)@ == (GameModel { update_delay: slower(old(self)@.update_delay), ..old(self)@ }),
    {
        let current_update_delay: u32 = self.update_delay;

        if current_update_delay <= FPS - RATE_STEP {
            self.update_delay = current_update_delay + RATE_STEP;
        } else {
            self.update_delay = FPS;
        }
    }
}

/// Counts the live cells among the up to eight cells around `(x, y)`.
/// Neighbours that would lie outside the grid are skipped.
pub fn count_live_neighbours(grid: &CellGrid, x: u32, y: u32) -> (neighbourhood: u32)
    requires
        grid.wf(),
        x < grid@.width,
        y < grid@.height,
    ensures
        neighbourhood == grid@.live_neighbours(x as int, y as int),
{
    proof {
        grid.lemma_view_wf();
    }
    let mut neighbourhood: u32 = 0;
    let top: bool = y > 0;
    let bottom: bool = y < grid.height() - 1;
    let left: bool = x > 0;
    let right: bool = x < grid.width() - 1;

    if top {
        if grid.cell(x, y - 1).alive {
            neighbourhood += 1;
        }
        if left && grid.cell(x - 1, y - 1).alive {
            neighbourhood += 1;
        }
        if right && grid.cell(x + 1, y - 1).alive {
            neighbourhood += 1;
        }
    }
    if bottom {
        if grid.cell(x, y + 1).alive {
            neighbourhood += 1;
        }
        if left && grid.cell(x - 1, y + 1).alive {
            neighbourhood += 1;
        }
        if right && grid.cell(x + 1, y + 1).alive {
            neighbourhood += 1;
        }
    }
    if left && grid.cell(x - 1, y).alive {
        neighbourhood += 1;
    }
    if right && grid.cell(x + 1, y).alive {
        neighbourhood += 1;
    }
    neighbourhood
}

/// First pass of a generation: stages, for every cell that evolves, the
/// state that the rule gives it on the grid as it stands. No cell's
/// current state changes.
pub fn compute_cells_next_state(game: &mut Game)
    requires
        old(game).wf(),
    ensures
        final(game).wf(),
        final(game)@ == (GameModel { board: old(game)@.board.staged(), ..old(game)@ }),
{
    let ghost before: Board = game.grid@;
    proof {
        game.grid.lemma_view_wf();
    }
    let width: u32 = game.grid.width();
    let height: u32 = game.grid.height();
    let mut y: u32 = 0;
    while y < height - 1
        invariant
            before.wf(),
            before.width == width,
            before.height == height,
            y <= height - 1,
            game.grid.wf(),
            game.grid@.wf(),
            game.grid@.width == width,
            game.grid@.height == height,
            game.update_delay == old(game).update_delay,
            forall|i: int, j: int|
                before.in_bounds(i, j) ==> #[trigger] game.grid@.cell(i, j) == (if j < y {
                    before.staged_cell(i, j)
                } else {
                    before.cell(i, j)
                }),
        decreases height - 1 - y,
    {
        let mut x: u32 = 0;
        while x < width - 1
            invariant
                before.wf(),
                before.width == width,
                before.height == height,
                y < height - 1,
                x <= width - 1,
                game.grid.wf(),
                game.grid@.wf(),
                game.grid@.width == width,
                game.grid@.height == height,
                game.update_delay == old(game).update_delay,
                forall|i: int, j: int|
                    before.in_bounds(i, j) ==> #[trigger] game.grid@.cell(i, j) == (if j < y || (j == y && i
                        < x) {
                        before.staged_cell(i, j)
                    } else {
                        before.cell(i, j)
                    }),
            decreases width - 1 - x,
        {
            let neighbourhood: u32 = count_live_neighbours(&game.grid, x, y);
            let ghost current: Board = game.grid@;
            assert(neighbourhood == before.live_neighbours(x as int, y as int)) by {
                assert forall|i: int, j: int| current.alive(i, j) == before.alive(i, j) by {
                    if before.in_bounds(i, j) {
                        assert(current.cell(i, j).alive == before.cell(i, j).alive);
                    }
                }
            }
            let cell = game.grid.cell_mut(x, y);
            cell.next_state = neighbourhood == 3 || (neighbourhood == 2 && cell.alive);
            proof {
                lemma_with_cell(current, x as int, y as int, before.staged_cell(x as int, y as int));
            }
            x += 1;
        }
        y += 1;
    }
    proof {
        lemma_from_fn(before.width, before.height, |i: int, j: int| before.staged_cell(i, j));
        lemma_board_ext(game.grid@, before.staged());
    }
}

/// Commits one cell: if it evolves, it takes the state that was staged
/// for it. Every other cell stays as it is.
pub fn commit_cell(game: &mut Game, x: u32, y: u32)
    requires
        old(game).wf(),
        x < old(game)@.board.width,
        y < old(game)@.board.height,
    ensures
        final(game).wf(),
        final(game)@ == (GameModel { board: old(game)@.board.commit_one(x as int, y as int), ..old(game)@ }),
{
    proof {
        game.grid.lemma_view_wf();
        lemma_commit_one(game.grid@, x as int, y as int);
    }
    if x < game.grid.width() - 1 && y < game.grid.height() - 1 {
        let cell = game.grid.cell_mut(x, y);
        cell.alive = cell.next_state;
    } else {
        proof {
            lemma_board_ext(game.grid@, game.grid@.commit_one(x as int, y as int));
        }
    }
}

/// Second pass of a generation: every cell that evolves takes the state
/// that was staged for it.
pub fn update_cells_state(game: &mut Game)
    requires
        old(game).wf(),
    ensures
        final(game).wf(),
        final(game)@ == (GameModel { board: old(game)@.board.committed(), ..old(game)@ }),
{
    let ghost before: GameModel = game@;
    proof {
        game.lemma_view_wf();
    }
    let width: u32 = game.grid.width();
    let height: u32 = game.grid.height();
    let mut y: u32 = 0;
    while y < height - 1
        invariant
            before.wf(),
            before.board.width == width,
            before.board.height == height,
            y <= height - 1,
            game.wf(),
            game@.board.wf(),
            game@.board.width == width,
            game@.board.height == height,
            game@.update_delay == before.update_delay,
            forall|i: int, j: int|
                before.board.in_bounds(i, j) ==> #[trigger] game@.board.cell(i, j) == (if j < y {
                    before.board.committed_cell(i, j)
                } else {
                    before.board.cell(i, j)
                }),
        decreases height - 1 - y,
    {
        let mut x: u32 = 0;
        while x < width - 1
            invariant
                before.wf(),
                before.board.width == width,
                before.board.height == height,
                y < height - 1,
                x <= width - 1,
                game.wf(),
                game@.board.wf(),
                game@.board.width == width,
                game@.board.height == height,
                game@.update_delay == before.update_delay,
                forall|i: int, j: int|
                    before.board.in_bounds(i, j) ==> #[trigger] game@.board.cell(i, j) == (if j < y || (j == y
                        && i < x) {
                        before.board.committed_cell(i, j)
                    } else {
                        before.board.cell(i, j)
                    }),
            decreases width - 1 - x,
        {
            let ghost current: Board = game@.board;
            commit_cell(game, x, y);
            proof {
                lemma_commit_one(current, x as int, y as int);
            }
            x += 1;
        }
        y += 1;
    }
    proof {
        lemma_from_fn(before.board.width, before.board.height, |i: int, j: int| before.board.committed_cell(i, j));
        lemma_board_ext(game@.board, before.board.committed());
    }
}

/// Whether pixel `(x, y)` lies on a cell of the game's grid.
pub fn is_under_pixel(game: &Game, x: i32, y: i32) -> (hit: bool)
    requires
        game.wf(),
    ensures
        hit == game@.board.under_pixel(x as int, y as int),
{
    x >= 0 && y >= 0 && (x as u32) / CELL_SIZE < game.grid.width() && (y as u32) / CELL_SIZE
        < game.grid.height()
}

/// Sets the cell under pixel `(x, y)` alive or dead. What is staged for
/// the cell stays as it is.
pub fn paint(game: &mut Game, alive: bool, x: i32, y: i32)
    requires
        old(game).wf(),
        old(game)@.board.under_pixel(x as int, y as int),
    ensures
        final(game).wf(),
        final(game)@ == (GameModel { board: old(game)@.board.painted(alive, x as int, y as int), ..old(game)@ }),
{
    let cell = game.grid.cell_mut((x as u32) / CELL_SIZE, (y as u32) / CELL_SIZE);
    cell.alive = alive;
    proof {
        lemma_with_cell(
            old(game)@.board,
            cell_of_pixel(x as int),
            cell_of_pixel(y as int),
            GridCell {
                alive,
                next_state: old(game)@.board.cell(cell_of_pixel(x as int), cell_of_pixel(y as int)).next_state,
            },
        );
    }
}

} // verus!
