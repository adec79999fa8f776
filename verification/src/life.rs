//! The rule of Life on a bounded board, as mathematics.
//!
//! A generation is made in two passes. The first stages, for every cell
//! that evolves, the state it will have next; the second commits what was
//! staged. Every staged state is computed from the board as it stood
//! before the first pass, so the update is simultaneous.
//!
//! The board does not wrap, and its last row and last column never evolve:
//! their cells keep whatever state they were given.

use vstd::prelude::*;
use crate::grid::{lemma_board_ext, lemma_from_fn, Board, GridCell};

verus! {

/// What a cell adds to a count of live cells.
pub open spec fn population(alive: bool) -> nat {
    if alive {
        1
    } else {
        0
    }
}

/// The rule: a cell is alive in the next generation when it has exactly
/// three live neighbours, or has exactly two and is alive now.
pub open spec fn lives_on(alive: bool, neighbours: nat) -> bool {
    neighbours == 3 || (neighbours == 2 && alive)
}

impl Board {
    /// How many of the up to eight cells around `(x, y)` are alive.
    /// Positions outside the board count as dead.
    pub open spec fn live_neighbours(self, x: int, y: int) -> nat {
        population(self.alive(x - 1, y - 1)) + population(self.alive(x, y - 1)) + population(
            self.alive(x + 1, y - 1),
        ) + population(self.alive(x - 1, y)) + population(self.alive(x + 1, y)) + population(
            self.alive(x - 1, y + 1),
        ) + population(self.alive(x, y + 1)) + population(self.alive(x + 1, y + 1))
    }

    /// Whether the cell at `(x, y)` takes part in evolution: every cell
    /// but those of the last row and the last column.
    pub open spec fn evolves(self, x: int, y: int) -> bool {
        0 <= x < self.width - 1 && 0 <= y < self.height - 1
    }

    /// Whether the cell at `(x, y)` is alive one generation later.
    pub open spec fn next_alive(self, x: int, y: int) -> bool {
        if self.evolves(x, y) {
            lives_on(self.alive(x, y), self.live_neighbours(x, y))
        } else {
            self.alive(x, y)
        }
    }

    /// The cell at `(x, y)` after the first pass: its state is untouched
    /// and, if it evolves, its next state is staged.
    pub open spec fn staged_cell(self, x: int, y: int) -> GridCell {
        GridCell {
            alive: self.cell(x, y).alive,
            next_state: if self.evolves(x, y) {
                lives_on(self.alive(x, y), self.live_neighbours(x, y))
            } else {
                self.cell(x, y).next_state
            },
        }
    }

    /// The cell at `(x, y)` after the second pass: if it evolves, it takes
    /// the state that was staged for it.
    pub open spec fn committed_cell(self, x: int, y: int) -> GridCell {
        GridCell {
            alive: if self.evolves(x, y) {
                self.cell(x, y).next_state
            } else {
                self.cell(x, y).alive
            },
            next_state: self.cell(x, y).next_state,
        }
    }

    /// The board after the first pass.
    pub open spec fn staged(self) -> Board {
        Board::from_fn(self.width, self.height, |x: int, y: int| self.staged_cell(x, y))
    }

    /// The board after the second pass.
    pub open spec fn committed(self) -> Board {
        Board::from_fn(self.width, self.height, |x: int, y: int| self.committed_cell(x, y))
    }

    /// The board one generation later: staged, then committed.
    pub open spec fn next_generation(self) -> Board {
        self.staged().committed()
    }

    /// This board with the single cell at `(x, y)` committed.
    pub open spec fn commit_one(self, x: int, y: int) -> Board {
        if self.in_bounds(x, y) {
            self.with_cell(x, y, self.committed_cell(x, y))
        } else {
            self
        }
    }

    /// This board with the cells named by `order` committed one at a time,
    /// first to last.
    pub open spec fn commit_in_order(self, order: Seq<(int, int)>) -> Board
        decreases order.len(),
    {
        if order.len() == 0 {
            self
        } else {
            self.commit_in_order(order.drop_last()).commit_one(order.last().0, order.last().1)
        }
    }
}

/// One generation keeps the board's size and well-formedness, and gives
/// every cell the state that the rule assigns it on the board as it stood
/// before: no cell sees a neighbour's new state.
pub proof fn lemma_next_generation(b: Board)
    requires
        b.wf(),
    ensures
        b.next_generation().wf(),
        b.next_generation().width == b.width,
        b.next_generation().height == b.height,
        forall|x: int, y: int| #[trigger] b.next_generation().alive(x, y) == b.next_alive(x, y),
{
    lemma_from_fn(b.width, b.height, |x: int, y: int| b.staged_cell(x, y));
    let s = b.staged();
    lemma_from_fn(s.width, s.height, |x: int, y: int| s.committed_cell(x, y));
    assert forall|x: int, y: int| #[trigger] b.next_generation().alive(x, y) == b.next_alive(x, y) by {
        if b.in_bounds(x, y) {
            assert(s.cell(x, y) == b.staged_cell(x, y));
            assert(s.committed().cell(x, y) == s.committed_cell(x, y));
        }
    }
}

/// Committing one cell keeps the board's size and changes that cell alone.
pub proof fn lemma_commit_one(b: Board, x: int, y: int)
    requires
        b.wf(),
    ensures
        b.commit_one(x, y).wf(),
        b.commit_one(x, y).width == b.width,
        b.commit_one(x, y).height == b.height,
        forall|i: int, j: int|
            b.in_bounds(i, j) ==> #[trigger] b.commit_one(x, y).cell(i, j) == (if i == x && j == y {
                b.committed_cell(i, j)
            } else {
                b.cell(i, j)
            }),
{
}

/// After committing the cells named by `order` one at a time, a cell holds
/// its committed value if `order` names it and its old value otherwise.
pub proof fn lemma_commit_in_order(b: Board, order: Seq<(int, int)>)
    requires
        b.wf(),
    ensures
        b.commit_in_order(order).wf(),
        b.commit_in_order(order).width == b.width,
        b.commit_in_order(order).height == b.height,
        forall|i: int, j: int|
            b.in_bounds(i, j) ==> #[trigger] b.commit_in_order(order).cell(i, j) == (if order.contains(
                (i, j),
            ) {
                b.committed_cell(i, j)
            } else {
                b.cell(i, j)
            }),
    decreases order.len(),
{
    if order.len() > 0 {
        let before = b.commit_in_order(order.drop_last());
        let (x, y) = order.last();
        lemma_commit_in_order(b, order.drop_last());
        lemma_commit_one(before, x, y);
        assert forall|i: int, j: int| b.in_bounds(i, j) implies #[trigger] b.commit_in_order(order).cell(
            i,
            j,
        ) == (if order.contains((i, j)) {
            b.committed_cell(i, j)
        } else {
            b.cell(i, j)
        }) by {
            assert(before.in_bounds(i, j));
            assert(order.last() == order[order.len() - 1]);
            if order.drop_last().contains((i, j)) {
                let k = choose|k: int| 0 <= k < order.drop_last().len() && order.drop_last()[k] == (i, j);
                assert(order[k] == (i, j));
            }
            if order.contains((i, j)) && !(i == x && j == y) {
                let k = choose|k: int| 0 <= k < order.len() && order[k] == (i, j);
                assert(order.drop_last()[k] == (i, j));
            }
        }
    }
}

/// The order in which staged cells are committed does not matter:
/// committing them one at a time, along any order that names every cell
/// that evolves, gives the board that the second pass gives.
pub proof fn lemma_commit_order_is_irrelevant(b: Board, order: Seq<(int, int)>)
    requires
        b.wf(),
        forall|x: int, y: int| b.evolves(x, y) ==> order.contains((x, y)),
    ensures
        b.commit_in_order(order) == b.committed(),
{
    lemma_commit_in_order(b, order);
    lemma_from_fn(b.width, b.height, |x: int, y: int| b.committed_cell(x, y));
    assert forall|x: int, y: int| b.in_bounds(x, y) implies b.commit_in_order(order).cell(x, y)
        == b.committed().cell(x, y) by {
        if !order.contains((x, y)) {
            assert(!b.evolves(x, y));
        }
    }
    lemma_board_ext(b.commit_in_order(order), b.committed());
}

/// A cell that evolves and has exactly three live neighbours is alive in
/// the next generation, whatever its state now.
pub proof fn lemma_three_neighbours_give_life(b: Board, x: int, y: int)
    requires
        b.wf(),
        b.evolves(x, y),
        b.live_neighbours(x, y) == 3,
    ensures
        b.next_generation().alive(x, y),
{
    lemma_next_generation(b);
}

/// A live cell with exactly two live neighbours is alive in the next
/// generation.
pub proof fn lemma_two_neighbours_keep_alive(b: Board, x: int, y: int)
    requires
        b.wf(),
        b.alive(x, y),
        b.live_neighbours(x, y) == 2,
    ensures
        b.next_generation().alive(x, y),
{
    lemma_next_generation(b);
}

/// A live cell that evolves and has fewer than two or more than three
/// live neighbours is dead in the next generation.
pub proof fn lemma_lonely_or_crowded_dies(b: Board, x: int, y: int)
    requires
        b.wf(),
        b.evolves(x, y),
        b.alive(x, y),
        b.live_neighbours(x, y) < 2 || b.live_neighbours(x, y) >= 4,
    ensures
        !b.next_generation().alive(x, y),
{
    lemma_next_generation(b);
}

/// A dead cell whose number of live neighbours is not three is dead in
/// the next generation.
pub proof fn lemma_dead_stays_dead(b: Board, x: int, y: int)
    requires
        b.wf(),
        !b.alive(x, y),
        b.live_neighbours(x, y) != 3,
    ensures
        !b.next_generation().alive(x, y),
{
    lemma_next_generation(b);
}

} // verus!
