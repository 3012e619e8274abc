//! Laws of the generation rule, proved over the model of a grid.

use crate::grid::lemma_grids_equal;
use crate::grid::lemma_index;
use crate::grid::lemma_next_cell;
use crate::grid::GridView;
use vstd::prelude::*;

verus! {

/// The live cells of `g` are exactly one cell, `(row, col)`.
pub open spec fn is_lone_cell(g: GridView, row: int, col: int) -> bool {
    forall|r: int, c: int| #[trigger] g.alive(r, c) <==> (r == row && c == col)
}

/// The live cells of `g` are exactly the 2x2 square whose top-left corner is
/// `(row, col)`.
pub open spec fn is_block(g: GridView, row: int, col: int) -> bool {
    forall|r: int, c: int| #[trigger]
        g.alive(r, c) <==> (row <= r <= row + 1 && col <= c <= col + 1)
}

/// The live cells of `g` are exactly three in a row, centered on
/// `(row, col)`.
pub open spec fn is_row_of_three(g: GridView, row: int, col: int) -> bool {
    forall|r: int, c: int| #[trigger] g.alive(r, c) <==> (r == row && col - 1 <= c <= col + 1)
}

/// The live cells of `g` are exactly three in a column, centered on
/// `(row, col)`.
pub open spec fn is_column_of_three(g: GridView, row: int, col: int) -> bool {
    forall|r: int, c: int| #[trigger] g.alive(r, c) <==> (c == col && row - 1 <= r <= row + 1)
}

/// A coordinate off the grid counts as dead, so no cell has more than
/// eight live neighbors, and a cell on the edge counts only the neighbors
/// that lie on the grid: the corner `(0, 0)` has three.
pub proof fn law_off_grid_counts_nothing(g: GridView, row: int, col: int)
    ensures
        !g.in_bounds(row, col) ==> !g.alive(row, col) && g.live(row, col) == 0,
        0 <= g.live_neighbors(row, col) <= 8,
        g.live_neighbors(0, 0) == g.live(0, 1) + g.live(1, 0) + g.live(1, 1),
{
}

/// Underpopulation: a live cell with no live neighbor is dead in the
/// following generation, wherever it lies and whatever the rest of the grid
/// holds.
pub proof fn law_isolated_cell_dies(g: GridView, row: int, col: int)
    requires
        g.wf(),
        g.alive(row, col),
        g.live_neighbors(row, col) == 0,
    ensures
        !g.next().alive(row, col),
{
    lemma_next_cell(g, row, col);
}

/// A grid whose only live cell is `(row, col)` is empty one generation
/// later: the cell dies and nothing is born.
pub proof fn law_lone_cell_leaves_nothing(g: GridView, row: int, col: int)
    requires
        g.wf(),
        is_lone_cell(g, row, col),
    ensures
        g.next() == GridView::dead(g.size),
{
    let empty = GridView::dead(g.size);
    lemma_next_cell(g, 0, 0);
    assert forall|r: int, c: int| g.next().in_bounds(r, c) implies g.next().alive(r, c)
        == empty.alive(r, c) by {
        lemma_next_cell(g, r, c);
        lemma_index(empty, r, c);
    }
    lemma_grids_equal(g.next(), empty);
}

/// The block is a still life: a grid that holds a 2x2 live square and
/// nothing else is its own following generation. This holds at the edges
/// and in the corners too.
pub proof fn law_block_is_stable(g: GridView, row: int, col: int)
    requires
        g.wf(),
        is_block(g, row, col),
    ensures
        g.next() == g,
{
    lemma_next_cell(g, 0, 0);
    assert forall|r: int, c: int| g.next().in_bounds(r, c) implies g.next().alive(r, c)
        == g.alive(r, c) by {
        lemma_next_cell(g, r, c);
        assert(g.alive(row, col) && g.alive(row + 1, col + 1));
    }
    lemma_grids_equal(g.next(), g);
}

/// A row of three with a free row above and below it becomes the column of
/// three through the same center.
pub proof fn law_row_of_three_turns(g: GridView, row: int, col: int)
    requires
        g.wf(),
        is_row_of_three(g, row, col),
        1 <= row,
        row + 1 < g.size,
    ensures
        g.next().wf(),
        is_column_of_three(g.next(), row, col),
{
    assert(g.alive(row, col - 1) && g.alive(row, col + 1));
    assert forall|r: int, c: int| #[trigger]
        g.next().alive(r, c) <==> (c == col && row - 1 <= r <= row + 1) by {
        lemma_next_cell(g, r, c);
    }
}

/// A column of three with a free column on either side becomes the row of
/// three through the same center.
pub proof fn law_column_of_three_turns(g: GridView, row: int, col: int)
    requires
        g.wf(),
        is_column_of_three(g, row, col),
        1 <= col,
        col + 1 < g.size,
    ensures
        g.next().wf(),
        is_row_of_three(g.next(), row, col),
{
    assert(g.alive(row - 1, col) && g.alive(row + 1, col));
    assert forall|r: int, c: int| #[trigger]
        g.next().alive(r, c) <==> (r == row && col - 1 <= c <= col + 1) by {
        lemma_next_cell(g, r, c);
    }
}

/// The blinker has period two: a row of three with a free row above and
/// below it is back after two generations.
pub proof fn law_blinker_period_two(g: GridView, row: int, col: int)
    requires
        g.wf(),
        is_row_of_three(g, row, col),
        1 <= row,
        row + 1 < g.size,
    ensures
        g.next().next() == g,
        g.generation(2) == g,
{
    assert(g.alive(row, col - 1) && g.alive(row, col + 1));
    law_row_of_three_turns(g, row, col);
    law_column_of_three_turns(g.next(), row, col);
    lemma_grids_equal(g.next().next(), g);
    reveal_with_fuel(GridView::generation, 3);
}

/// The upright blinker has period two as well: a column of three with a
/// free column on either side is back after two generations.
pub proof fn law_upright_blinker_period_two(g: GridView, row: int, col: int)
    requires
        g.wf(),
        is_column_of_three(g, row, col),
        1 <= col,
        col + 1 < g.size,
    ensures
        g.next().next() == g,
        g.generation(2) == g,
{
    assert(g.alive(row - 1, col) && g.alive(row + 1, col));
    law_column_of_three_turns(g, row, col);
    law_row_of_three_turns(g.next(), row, col);
    lemma_grids_equal(g.next().next(), g);
    reveal_with_fuel(GridView::generation, 3);
}

} // verus!
