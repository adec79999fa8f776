//! What to draw, as a list of commands for a canvas.
//!
//! Nothing here touches a screen. Each function says which commands show
//! some part of the game; whoever owns the canvas carries them out in
//! order.

use vstd::prelude::*;
use crate::game::{Game, CELL_SIZE};
use crate::grid::Board;
use vstd::seq_lib::{
    lemma_seq_concat_contains_all_elements, lemma_seq_contains_after_push,
    lemma_seq_empty_contains_nothing,
};

verus! {

/// One operation on a canvas. Coordinates are in pixels.
#[derive(Clone, Copy, Debug, PartialEq, Eq, Structural)]
pub enum DrawCommand {
    /// Use this colour for what is drawn next.
    SetDrawColor { r: u8, g: u8, b: u8 },
    /// Fill the canvas with the current colour.
    Clear,
    /// Draw a line from `(x0, y0)` to `(x1, y1)`.
    DrawLine { x0: u32, y0: u32, x1: u32, y1: u32 },
    /// Fill the square of side `size` whose top left corner is `(x, y)`.
    FillRect { x: u32, y: u32, size: u32 },
    /// Show what has been drawn.
    Present,
}

/// The command that selects black.
pub open spec fn black() -> DrawCommand {
    DrawCommand::SetDrawColor { r: 0, g: 0, b: 0 }
}

/// The command that selects white.
pub open spec fn white() -> DrawCommand {
    DrawCommand::SetDrawColor { r: 255, g: 255, b: 255 }
}

/// The line across the board above row `y`.
pub open spec fn horizontal_line(board: Board, y: int) -> DrawCommand {
    DrawCommand::DrawLine {
        x0: 0,
        y0: (y * CELL_SIZE) as u32,
        x1: (board.width * CELL_SIZE) as u32,
        y1: (y * CELL_SIZE) as u32,
    }
}

/// The line down the board left of column `x`.
pub open spec fn vertical_line(board: Board, x: int) -> DrawCommand {
    DrawCommand::DrawLine {
        x0: (x * CELL_SIZE) as u32,
        y0: 0,
        x1: (x * CELL_SIZE) as u32,
        y1: (board.height * CELL_SIZE) as u32,
    }
}

/// The square that shows the cell at `(x, y)`.
pub open spec fn cell_square(x: int, y: int) -> DrawCommand {
    DrawCommand::FillRect { x: (x * CELL_SIZE) as u32, y: (y * CELL_SIZE) as u32, size: CELL_SIZE }
}

/// The lines between the cells of a board, in white: first those between
/// rows, top to bottom, then those between columns, left to right.
pub open spec fn grid_lines(board: Board) -> Seq<DrawCommand> {
    seq![white()] + Seq::new((board.height - 1) as nat, |k: int| horizontal_line(board, k + 1)) + Seq::new(
        (board.width - 1) as nat,
        |k: int| vertical_line(board, k + 1),
    )
}

/// The squares of the live cells among the first `upto` cells of row `y`,
/// left to right.
pub open spec fn row_squares(board: Board, y: int, upto: int) -> Seq<DrawCommand>
    decreases upto,
{
    if upto <= 0 {
        Seq::empty()
    } else if board.alive(upto - 1, y) {
        row_squares(board, y, upto - 1).push(cell_square(upto - 1, y))
    } else {
        row_squares(board, y, upto - 1)
    }
}

/// The squares of the live cells in the first `upto` rows, row by row.
pub open spec fn rows_squares(board: Board, upto: int) -> Seq<DrawCommand>
    decreases upto,
{
    if upto <= 0 {
        Seq::empty()
    } else {
        rows_squares(board, upto - 1) + row_squares(board, upto - 1, board.width as int)
    }
}

/// The squares of all live cells of a board, in white, row by row and
/// left to right within a row.
pub open spec fn live_squares(board: Board) -> Seq<DrawCommand> {
    seq![white()] + rows_squares(board, board.height as int)
}

/// What the squares of the first `upto` cells of a row are: those of its
/// live cells, and nothing else.
proof fn lemma_row_squares(board: Board, row: int, upto: int, c: DrawCommand)
    requires
        0 <= upto,
    ensures
        row_squares(board, row, upto).contains(c) <==> exists|x: int|
            0 <= x < upto && #[trigger] board.alive(x, row) && c == cell_square(x, row),
    decreases upto,
{
    if upto > 0 {
        let rest = row_squares(board, row, upto - 1);
        lemma_row_squares(board, row, upto - 1, c);
        if board.alive(upto - 1, row) {
            lemma_seq_contains_after_push(rest, cell_square(upto - 1, row), c);
        }
        if row_squares(board, row, upto).contains(c) {
            if rest.contains(c) {
                let x = choose|x: int|
                    0 <= x < upto - 1 && #[trigger] board.alive(x, row) && c == cell_square(x, row);
                assert(0 <= x < upto && board.alive(x, row) && c == cell_square(x, row));
            } else {
                assert(board.alive(upto - 1, row) && c == cell_square(upto - 1, row));
            }
        }
    } else {
        lemma_seq_empty_contains_nothing(c);
    }
}

/// What the squares of the first `upto` rows are: those of their live
/// cells, and nothing else.
proof fn lemma_rows_squares(board: Board, upto: int, c: DrawCommand)
    requires
        0 <= upto,
    ensures
        rows_squares(board, upto).contains(c) <==> exists|x: int, y: int|
            0 <= y < upto && #[trigger] board.alive(x, y) && c == cell_square(x, y),
    decreases upto,
{
    if upto > 0 {
        let above = rows_squares(board, upto - 1);
        let row = row_squares(board, upto - 1, board.width as int);
        lemma_rows_squares(board, upto - 1, c);
        lemma_row_squares(board, upto - 1, board.width as int, c);
        lemma_seq_concat_contains_all_elements(above, row, c);
        if rows_squares(board, upto).contains(c) {
            if above.contains(c) {
                let (x, y) = choose|x: int, y: int|
                    0 <= y < upto - 1 && #[trigger] board.alive(x, y) && c == cell_square(x, y);
                assert(0 <= y < upto && board.alive(x, y) && c == cell_square(x, y));
            } else {
                let x = choose|x: int|
                    0 <= x < board.width && #[trigger] board.alive(x, upto - 1) && c == cell_square(
                        x,
                        upto - 1,
                    );
                assert(board.alive(x, upto - 1) && c == cell_square(x, upto - 1));
            }
        }
        if exists|x: int, y: int| 0 <= y < upto && #[trigger] board.alive(x, y) && c == cell_square(x, y) {
            let (x, y) = choose|x: int, y: int|
                0 <= y < upto && #[trigger] board.alive(x, y) && c == cell_square(x, y);
            if y < upto - 1 {
                assert(above.contains(c));
            } else {
                assert(0 <= x < board.width && board.alive(x, upto - 1) && c == cell_square(x, upto - 1));
                assert(row.contains(c));
            }
        }
    } else {
        lemma_seq_empty_contains_nothing(c);
    }
}

/// The commands that draw the live cells are the choice of white and one
/// square for each live cell, and nothing else.
pub proof fn lemma_live_squares(board: Board, c: DrawCommand)
    ensures
        live_squares(board).contains(c) <==> c == white() || exists|x: int, y: int| #[trigger]
            board.alive(x, y) && c == cell_square(x, y),
{
    lemma_rows_squares(board, board.height as int, c);
    lemma_seq_concat_contains_all_elements(seq![white()], rows_squares(board, board.height as int), c);
    assert(seq![white()].contains(c) <==> c == white()) by {
        assert(seq![white()][0] == white());
    }
    if exists|x: int, y: int| #[trigger] board.alive(x, y) && c == cell_square(x, y) {
        let (x, y) = choose|x: int, y: int| #[trigger] board.alive(x, y) && c == cell_square(x, y);
        assert(0 <= y < board.height && board.alive(x, y) && c == cell_square(x, y));
    }
}

/// On a board whose size in pixels fits `u32`, the square of a cell is
/// drawn exactly when the cell is alive.
pub proof fn lemma_square_drawn_iff_alive(board: Board, x: int, y: int)
    requires
        board.in_bounds(x, y),
        board.width * CELL_SIZE <= u32::MAX,
        board.height * CELL_SIZE <= u32::MAX,
    ensures
        live_squares(board).contains(cell_square(x, y)) <==> board.alive(x, y),
{
    lemma_live_squares(board, cell_square(x, y));
}

/// The commands that blank the canvas.
pub fn clear_canvas(_game: &Game) -> (commands: Vec<DrawCommand>)
    ensures
        commands@ == seq![black(), DrawCommand::Clear],
{
    let mut commands: Vec<DrawCommand> = Vec::new();
    commands.push(DrawCommand::SetDrawColor { r: 0, g: 0, b: 0 });
    commands.push(DrawCommand::Clear);
    assert(commands@ =~= seq![black(), DrawCommand::Clear]);
    commands
}

/// The commands that draw the lines between the cells.
pub fn draw_grid(game: &Game) -> (commands: Vec<DrawCommand>)
    requires
        game.wf(),
    ensures
        commands@ == grid_lines(game@.board),
{
    proof {
        game.lemma_view_wf();
    }
    let ghost board: Board = game@.board;
    let width: u32 = game.grid().width();
    let height: u32 = game.grid().height();
    let right: u32 = game.pixel_width();
    let bottom: u32 = game.pixel_height();
    let mut commands: Vec<DrawCommand> = Vec::new();
    commands.push(DrawCommand::SetDrawColor { r: 255, g: 255, b: 255 });
    let mut y: u32 = 1;
    while y < height
        invariant
            board == game@.board,
            board.width == width,
            board.height == height,
            height * CELL_SIZE <= u32::MAX,
            right == width * CELL_SIZE,
            1 <= y <= height,
            commands@ == seq![white()] + Seq::new((y - 1) as nat, |k: int| horizontal_line(board, k + 1)),
        decreases height - y,
    {
        commands.push(DrawCommand::DrawLine { x0: 0, y0: y * CELL_SIZE, x1: right, y1: y * CELL_SIZE });
        y += 1;
        assert(commands@ =~= seq![white()] + Seq::new((y - 1) as nat, |k: int| horizontal_line(board, k + 1)));
    }
    let ghost rows: Seq<DrawCommand> = commands@;
    let mut x: u32 = 1;
    while x < width
        invariant
            board == game@.board,
            board.width == width,
            board.height == height,
            width * CELL_SIZE <= u32::MAX,
            bottom == height * CELL_SIZE,
            1 <= x <= width,
            commands@ == rows + Seq::new((x - 1) as nat, |k: int| vertical_line(board, k + 1)),
        decreases width - x,
    {
        commands.push(DrawCommand::DrawLine { x0: x * CELL_SIZE, y0: 0, x1: x * CELL_SIZE, y1: bottom });
        x += 1;
        assert(commands@ =~= rows + Seq::new((x - 1) as nat, |k: int| vertical_line(board, k + 1)));
    }
    commands
}

/// The commands that draw every live cell.
pub fn draw_cells(game: &Game) -> (commands: Vec<DrawCommand>)
    requires
        game.wf(),
    ensures
        commands@ == live_squares(game@.board),
{
    proof {
        game.lemma_view_wf();
    }
    let ghost board: Board = game@.board;
    let grid = game.grid();
    let width: u32 = grid.width();
    let height: u32 = grid.height();
    let mut commands: Vec<DrawCommand> = Vec::new();
    commands.push(DrawCommand::SetDrawColor { r: 255, g: 255, b: 255 });
    let mut y: u32 = 0;
    while y < height
        invariant
            grid.wf(),
            grid@ == board,
            board.wf(),
            board.width == width,
            board.height == height,
            width * CELL_SIZE <= u32::MAX,
            height * CELL_SIZE <= u32::MAX,
            y <= height,
            commands@ == seq![white()] + rows_squares(board, y as int),
        decreases height - y,
    {
        let ghost above: Seq<DrawCommand> = commands@;
        let mut x: u32 = 0;
        while x < width
            invariant
                grid.wf(),
                grid@ == board,
                board.wf(),
                board.width == width,
                board.height == height,
                width * CELL_SIZE <= u32::MAX,
                height * CELL_SIZE <= u32::MAX,
                y < height,
                x <= width,
                commands@ == above + row_squares(board, y as int, x as int),
            decreases width - x,
        {
            if grid.cell(x, y).alive {
                commands.push(DrawCommand::FillRect { x: x * CELL_SIZE, y: y * CELL_SIZE, size: CELL_SIZE });
            }
            x += 1;
            assert(commands@ =~= above + row_squares(board, y as int, x as int));
        }
        y += 1;
        assert(commands@ =~= seq![white()] + rows_squares(board, y as int));
    }
    commands
}

/// The command that shows the finished frame.
pub fn to_screen(_game: &Game) -> (commands: Vec<DrawCommand>)
    ensures
        commands@ == seq![DrawCommand::Present],
{
    let mut commands: Vec<DrawCommand> = Vec::new();
    commands.push(DrawCommand::Present);
    assert(commands@ =~= seq![DrawCommand::Present]);
    commands
}

} // verus!
