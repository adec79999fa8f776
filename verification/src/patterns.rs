//! Two classic patterns and what the rule does to them, wherever on a
//! board they lie.

use vstd::prelude::*;
use crate::grid::Board;
use crate::life::lemma_next_generation;

verus! {

/// Whether two boards have the same live cells.
pub open spec fn same_live_cells(a: Board, b: Board) -> bool {
    forall|i: int, j: int| #[trigger] a.alive(i, j) == b.alive(i, j)
}

/// Whether the live cells of `b` are exactly the two-by-two block whose
/// top left cell is `(x, y)`.
pub open spec fn is_block(b: Board, x: int, y: int) -> bool {
    forall|i: int, j: int| #[trigger] b.alive(i, j) <==> (x <= i <= x + 1 && y <= j <= y + 1)
}

/// Whether the live cells of `b` are exactly the row of three whose
/// middle cell is `(x, y)`.
pub open spec fn is_row_of_three(b: Board, x: int, y: int) -> bool {
    forall|i: int, j: int| #[trigger] b.alive(i, j) <==> (x - 1 <= i <= x + 1 && j == y)
}

/// Whether the live cells of `b` are exactly the column of three whose
/// middle cell is `(x, y)`.
pub open spec fn is_column_of_three(b: Board, x: int, y: int) -> bool {
    forall|i: int, j: int| #[trigger] b.alive(i, j) <==> (i == x && y - 1 <= j <= y + 1)
}

/// Whether a blinker around `(x, y)` has room to turn: the three by three
/// square around `(x, y)` lies on the board and all of it evolves.
pub open spec fn blinker_fits(b: Board, x: int, y: int) -> bool {
    b.evolves(x - 1, y - 1) && b.evolves(x + 1, y + 1)
}

/// A block is a still life: a board whose live cells are exactly one
/// block has the same live cells one generation later.
pub proof fn lemma_block_is_still(b: Board, x: int, y: int)
    requires
        b.wf(),
        is_block(b, x, y),
    ensures
        is_block(b.next_generation(), x, y),
        same_live_cells(b.next_generation(), b),
{
    lemma_next_generation(b);
    assert forall|i: int, j: int| #[trigger]
        b.next_generation().alive(i, j) <==> (x <= i <= x + 1 && y <= j <= y + 1) by {
        assert(b.next_generation().alive(i, j) == b.next_alive(i, j));
    }
}

/// A row of three with room to turn becomes the column of three around
/// the same middle cell.
pub proof fn lemma_row_becomes_column(b: Board, x: int, y: int)
    requires
        b.wf(),
        blinker_fits(b, x, y),
        is_row_of_three(b, x, y),
    ensures
        is_column_of_three(b.next_generation(), x, y),
{
    lemma_next_generation(b);
    assert forall|i: int, j: int| #[trigger]
        b.next_generation().alive(i, j) <==> (i == x && y - 1 <= j <= y + 1) by {
        assert(b.next_generation().alive(i, j) == b.next_alive(i, j));
    }
}

/// A column of three with room to turn becomes the row of three around
/// the same middle cell.
pub proof fn lemma_column_becomes_row(b: Board, x: int, y: int)
    requires
        b.wf(),
        blinker_fits(b, x, y),
        is_column_of_three(b, x, y),
    ensures
        is_row_of_three(b.next_generation(), x, y),
{
    lemma_next_generation(b);
    assert forall|i: int, j: int| #[trigger]
        b.next_generation().alive(i, j) <==> (x - 1 <= i <= x + 1 && j == y) by {
        assert(b.next_generation().alive(i, j) == b.next_alive(i, j));
    }
}

/// A blinker has period two: a row of three with room to turn is a column
/// after one generation and the same row again after two.
pub proof fn lemma_blinker_returns(b: Board, x: int, y: int)
    requires
        b.wf(),
        blinker_fits(b, x, y),
        is_row_of_three(b, x, y),
    ensures
        is_column_of_three(b.next_generation(), x, y),
        is_row_of_three(b.next_generation().next_generation(), x, y),
        same_live_cells(b.next_generation().next_generation(), b),
{
    lemma_row_becomes_column(b, x, y);
    lemma_next_generation(b);
    lemma_column_becomes_row(b.next_generation(), x, y);
}

} // verus!
