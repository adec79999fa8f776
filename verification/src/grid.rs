//! The cell grid: a fixed-size rectangle of cells stored row by row.
//!
//! [`CellGrid`] is the executable container. Contracts speak of its view,
//! a [`Board`]: a sequence of rows, each a sequence of cells, so that the
//! cell at column `x` of row `y` is `rows[y][x]`.

use vstd::prelude::*;

verus! {

/// One cell: its state in the current generation and the state staged for
/// the next one.
///
/// `next_state` is meaningful only between the pass that computes a
/// generation and the pass that commits it.
#[derive(Clone, Copy, Debug, PartialEq, Eq, Structural)]
pub struct GridCell {
    pub alive: bool,
    pub next_state: bool,
}

/// The mathematical model of a grid: `height` rows of `width` cells.
pub struct Board {
    pub width: nat,
    pub height: nat,
    pub rows: Seq<Seq<GridCell>>,
}

impl Board {
    /// A board is well formed when it has at least one row and one column
    /// and every row has the board's width.
    pub open spec fn wf(self) -> bool {
        &&& self.width >= 1
        &&& self.height >= 1
        &&& self.rows.len() == self.height
        &&& forall|y: int| 0 <= y < self.height ==> (#[trigger] self.rows[y]).len() == self.width
    }

    /// Whether `(x, y)` names a cell of the board.
    pub open spec fn in_bounds(self, x: int, y: int) -> bool {
        0 <= x < self.width && 0 <= y < self.height
    }

    /// The cell at column `x` of row `y`.
    pub open spec fn cell(self, x: int, y: int) -> GridCell
        recommends
            self.in_bounds(x, y),
    {
        self.rows[y][x]
    }

    /// Whether the cell at `(x, y)` is alive. The board does not wrap:
    /// a position outside it counts as dead.
    pub open spec fn alive(self, x: int, y: int) -> bool {
        self.in_bounds(x, y) && self.cell(x, y).alive
    }

    /// The board of the given size whose cell at `(x, y)` is `f(x, y)`.
    pub open spec fn from_fn(width: nat, height: nat, f: spec_fn(int, int) -> GridCell) -> Board {
        Board {
            width,
            height,
            rows: Seq::new(height, |y: int| Seq::new(width, |x: int| f(x, y))),
        }
    }

    /// The board with every cell dead and nothing staged.
    pub open spec fn blank(width: nat, height: nat) -> Board {
        Board::from_fn(width, height, |x: int, y: int| GridCell { alive: false, next_state: false })
    }

    /// This board with the cell at `(x, y)` replaced by `c`.
    pub open spec fn with_cell(self, x: int, y: int, c: GridCell) -> Board
        recommends
            self.in_bounds(x, y),
    {
        Board { rows: self.rows.update(y, self.rows[y].update(x, c)), ..self }
    }
}

/// A board built cell by cell is well formed and holds at each position
/// the cell it was built with.
pub proof fn lemma_from_fn(width: nat, height: nat, f: spec_fn(int, int) -> GridCell)
    requires
        width >= 1,
        height >= 1,
    ensures
        Board::from_fn(width, height, f).wf(),
        Board::from_fn(width, height, f).width == width,
        Board::from_fn(width, height, f).height == height,
        forall|x: int, y: int|
            0 <= x < width && 0 <= y < height ==> #[trigger] Board::from_fn(width, height, f).cell(x, y)
                == f(x, y),
{
}

/// Replacing one cell keeps the board's size and changes that cell alone.
pub proof fn lemma_with_cell(b: Board, x: int, y: int, c: GridCell)
    requires
        b.wf(),
        b.in_bounds(x, y),
    ensures
        b.with_cell(x, y, c).wf(),
        b.with_cell(x, y, c).width == b.width,
        b.with_cell(x, y, c).height == b.height,
        forall|i: int, j: int|
            b.in_bounds(i, j) ==> #[trigger] b.with_cell(x, y, c).cell(i, j) == (if i == x && j == y {
                c
            } else {
                b.cell(i, j)
            }),
{
}

/// Two well-formed boards of one size that agree cell by cell are equal.
pub proof fn lemma_board_ext(a: Board, b: Board)
    requires
        a.wf(),
        b.wf(),
        a.width == b.width,
        a.height == b.height,
        forall|x: int, y: int| a.in_bounds(x, y) ==> a.cell(x, y) == b.cell(x, y),
    ensures
        a == b,
{
    assert forall|y: int| 0 <= y < a.height implies #[trigger] a.rows[y] == b.rows[y] by {
        assert forall|x: int| 0 <= x < a.width implies #[trigger] a.rows[y][x] == b.rows[y][x] by {
            assert(a.in_bounds(x, y));
            assert(a.cell(x, y) == b.cell(x, y));
        }
        assert(a.rows[y] =~= b.rows[y]);
    }
    assert(a.rows =~= b.rows);
}

/// Position of cell `(x, y)` in row-major storage.
pub open spec fn row_major(width: nat, x: int, y: int) -> int {
    x + y * width
}

/// Every cell of a `width` by `height` board has its own slot below
/// `width * height`.
pub proof fn lemma_row_major_in_range(width: nat, height: nat, x: int, y: int)
    requires
        0 <= x < width,
        0 <= y < height,
    ensures
        0 <= y * width <= row_major(width, x, y) < width * height,
{
    assert(0 <= y * width && (y + 1) * width <= height * width) by (nonlinear_arith)
        requires
            0 <= y,
            y + 1 <= height,
            0 <= width,
    ;
    assert((y + 1) * width == y * width + width) by (nonlinear_arith);
    assert(height * width == width * height) by (nonlinear_arith);
}

/// Two cells of a board share a slot only if they are the same cell.
pub proof fn lemma_row_major_injective(width: nat, x1: int, y1: int, x2: int, y2: int)
    requires
        0 <= x1 < width,
        0 <= x2 < width,
        row_major(width, x1, y1) == row_major(width, x2, y2),
    ensures
        x1 == x2,
        y1 == y2,
{
    if y1 < y2 {
        assert((y1 + 1) * width <= y2 * width) by (nonlinear_arith)
            requires
                y1 + 1 <= y2,
                0 <= width,
        ;
        assert((y1 + 1) * width == y1 * width + width) by (nonlinear_arith);
    } else if y2 < y1 {
        assert((y2 + 1) * width <= y1 * width) by (nonlinear_arith)
            requires
                y2 + 1 <= y1,
                0 <= width,
        ;
        assert((y2 + 1) * width == y2 * width + width) by (nonlinear_arith);
    }
}

/// Replacing one slot of row-major storage replaces exactly that cell of
/// the board read from it.
proof fn lemma_slot_update(cells: Seq<GridCell>, width: nat, height: nat, x: int, y: int, c: GridCell)
    requires
        0 <= x < width,
        0 <= y < height,
        cells.len() == width * height,
    ensures
        Board::from_fn(
            width,
            height,
            |i: int, j: int| cells.update(row_major(width, x, y), c)[row_major(width, i, j)],
        ) == Board::from_fn(width, height, |i: int, j: int| cells[row_major(width, i, j)]).with_cell(
            x,
            y,
            c,
        ),
{
    let written = Board::from_fn(
        width,
        height,
        |i: int, j: int| cells.update(row_major(width, x, y), c)[row_major(width, i, j)],
    );
    let patched = Board::from_fn(width, height, |i: int, j: int| cells[row_major(width, i, j)]).with_cell(
        x,
        y,
        c,
    );
    lemma_row_major_in_range(width, height, x, y);
    assert forall|j: int| 0 <= j < height implies #[trigger] written.rows[j] == patched.rows[j] by {
        assert forall|i: int| 0 <= i < width implies #[trigger] written.rows[j][i] == patched.rows[j][i] by {
            lemma_row_major_in_range(width, height, i, j);
            if row_major(width, i, j) == row_major(width, x, y) {
                lemma_row_major_injective(width, i, j, x, y);
            }
        }
        assert(written.rows[j] =~= patched.rows[j]);
    }
    assert(written.rows =~= patched.rows);
}

/// A rectangular grid of cells of fixed size.
pub struct CellGrid {
    width: u32,
    height: u32,
    cells: Vec<GridCell>,
}

impl View for CellGrid {
    type V = Board;

    /// Cells are stored row by row: cell `(x, y)` is at `x + y * width`.
    closed spec fn view(&self) -> Board {
        Board::from_fn(
            self.width as nat,
            self.height as nat,
            |x: int, y: int| self.cells@[row_major(self.width as nat, x, y)],
        )
    }
}

impl CellGrid {
    /// The grid's invariant: at least one row and one column, a cell count
    /// that fits `u32`, and exactly one stored cell per position.
    pub closed spec fn wf(&self) -> bool {
        &&& self.width >= 1
        &&& self.height >= 1
        &&& self.width * self.height <= u32::MAX
        &&& self.cells@.len() == self.width * self.height
    }

    /// A well-formed grid has a well-formed view, whose size fits `u32`.
    pub proof fn lemma_view_wf(&self)
        requires
            self.wf(),
        ensures
            self@.wf(),
            self@.width <= u32::MAX,
            self@.height <= u32::MAX,
    {
    }

    /// Creates a grid of `width` by `height` cells, all dead.
    pub fn new(width: u32, height: u32) -> (grid: Self)
        requires
            width >= 1,
            height >= 1,
            width * height <= u32::MAX,
        ensures
            grid.wf(),
            grid@ == Board::blank(width as nat, height as nat),
    {
        let count: usize = (width * height) as usize;
        let mut cells: Vec<GridCell> = Vec::new();
        let mut filled: usize = 0;
        while filled < count
            invariant
                filled <= count,
                cells@.len() == filled,
                forall|i: int| 0 <= i < filled ==> cells@[i] == (GridCell { alive: false, next_state: false }),
            decreases count - filled,
        {
            cells.push(GridCell { alive: false, next_state: false });
            filled += 1;
        }
        let grid = Self { width, height, cells };
        proof {
            let blank = Board::blank(width as nat, height as nat);
            assert forall|x: int, y: int| grid@.in_bounds(x, y) implies grid@.cell(x, y) == blank.cell(x, y) by {
                lemma_row_major_in_range(width as nat, height as nat, x, y);
            }
            lemma_board_ext(grid@, blank);
        }
        grid
    }

    /// Number of columns.
    pub fn width(&self) -> (w: u32)
        ensures
            w == self@.width,
    {
        self.width
    }

    /// Number of rows.
    pub fn height(&self) -> (h: u32)
        ensures
            h == self@.height,
    {
        self.height
    }

    /// The cell at column `x` of row `y`.
    pub fn cell(&self, x: u32, y: u32) -> (c: &GridCell)
        requires
            self.wf(),
            x < self@.width,
            y < self@.height,
        ensures
            *c == self@.cell(x as int, y as int),
    {
        proof {
            lemma_row_major_in_range(self.width as nat, self.height as nat, x as int, y as int);
        }
        let index: usize = x as usize + (y as usize * self.width as usize);
        &self.cells[index]
    }

    /// Mutable access to the cell at column `x` of row `y`. Whatever the
    /// caller writes through the reference becomes that cell; every other
    /// cell keeps its value.
    pub fn cell_mut(&mut self, x: u32, y: u32) -> (c: &mut GridCell)
        requires
            old(self).wf(),
            x < old(self)@.width,
            y < old(self)@.height,
        ensures
            *c == old(self)@.cell(x as int, y as int),
            final(self).wf(),
            final(self)@ == old(self)@.with_cell(x as int, y as int, *final(c)),
    {
        proof {
            lemma_row_major_in_range(self.width as nat, self.height as nat, x as int, y as int);
        }
        let index: usize = x as usize + (y as usize * self.width as usize);
        let c = &mut self.cells[index];
        proof {
            lemma_slot_update(
                old(self).cells@,
                self.width as nat,
                self.height as nat,
                x as int,
                y as int,
                *final(c),
            );
        }
        c
    }
}

} // verus!
