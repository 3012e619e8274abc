//! The grid, its mathematical model and the generation rule.

use vstd::arithmetic::div_mod::lemma_fundamental_div_mod;
use vstd::arithmetic::div_mod::lemma_fundamental_div_mod_converse;
use vstd::prelude::*;

verus! {

/// The mathematical model of a grid: a side length and a row-major sequence
/// of cells, `true` for alive.
pub struct GridView {
    pub size: nat,
    pub cells: Seq<bool>,
}

/// The standard rule: a live cell survives with two or three live
/// neighbors, a dead cell is born with exactly three.
pub open spec fn rule(alive: bool, neighbors: int) -> bool {
    if alive {
        neighbors == 2 || neighbors == 3
    } else {
        neighbors == 3
    }
}

impl GridView {
    /// The side is positive and there is one cell per coordinate pair.
    pub open spec fn wf(self) -> bool {
        &&& self.size >= 1
        &&& self.cells.len() == self.size * self.size
    }

    /// The grid of side `size` with every cell dead.
    pub open spec fn dead(size: nat) -> GridView {
        GridView { size, cells: Seq::new(size * size, |k: int| false) }
    }

    /// Whether `(row, col)` lies on the grid.
    pub open spec fn in_bounds(self, row: int, col: int) -> bool {
        0 <= row < self.size && 0 <= col < self.size
    }

    /// Position of `(row, col)` in the row-major cell sequence.
    pub open spec fn index(self, row: int, col: int) -> int {
        row * self.size + col
    }

    /// Whether the cell at `(row, col)` is alive. Every coordinate off the
    /// grid is dead: the edges are hard, nothing wraps around.
    pub open spec fn alive(self, row: int, col: int) -> bool {
        self.in_bounds(row, col) && self.cells[self.index(row, col)]
    }

    /// `1` for a live cell at `(row, col)`, `0` otherwise.
    pub open spec fn live(self, row: int, col: int) -> int {
        if self.alive(row, col) {
            1
        } else {
            0
        }
    }

    /// How many of the eight cells around `(row, col)` are alive.
    pub open spec fn live_neighbors(self, row: int, col: int) -> int {
        self.live(row - 1, col - 1) + self.live(row - 1, col) + self.live(row - 1, col + 1)
            + self.live(row, col - 1) + self.live(row, col + 1)
            + self.live(row + 1, col - 1) + self.live(row + 1, col) + self.live(row + 1, col + 1)
    }

    /// The cells of the 3x3 block centered on `(row, col)` are numbered row by
    /// row from 0 to 8. This is `live` of cell `k` of the block, and `0` for
    /// the center, which is no neighbor of itself.
    spec fn block_live(self, row: int, col: int, k: int) -> int {
        if k == 4 {
            0
        } else {
            self.live(row + k / 3 - 1, col + k % 3 - 1)
        }
    }

    /// The live neighbors among the first `k` cells of the block.
    spec fn block_live_before(self, row: int, col: int, k: int) -> int
        decreases k,
    {
        if k <= 0 {
            0
        } else {
            self.block_live_before(row, col, k - 1) + self.block_live(row, col, k - 1)
        }
    }

    /// The grid with the cell at `(row, col)` replaced by `value`.
    pub open spec fn with_cell(self, row: int, col: int, value: bool) -> GridView {
        GridView { size: self.size, cells: self.cells.update(self.index(row, col), value) }
    }

    /// The following generation: every cell is decided by the rule from this
    /// grid alone.
    pub open spec fn next(self) -> GridView {
        GridView {
            size: self.size,
            cells: Seq::new(
                self.cells.len(),
                |k: int|
                    rule(
                        self.cells[k],
                        self.live_neighbors(k / (self.size as int), k % (self.size as int)),
                    ),
            ),
        }
    }

    /// The grid after `count` generations.
    pub open spec fn generation(self, count: nat) -> GridView
        decreases count,
    {
        if count == 0 {
            self
        } else {
            self.generation((count - 1) as nat).next()
        }
    }
}

/// Walking the whole block counts exactly the eight neighbors.
proof fn lemma_block_total(g: GridView, row: int, col: int)
    ensures
        g.block_live_before(row, col, 9) == g.live_neighbors(row, col),
        0 <= g.live_neighbors(row, col) <= 8,
{
    reveal_with_fuel(GridView::block_live_before, 10);
}

/// On a grid, `(row, col)` has an index below `size * size`, and the index
/// determines the pair.
pub proof fn lemma_index(g: GridView, row: int, col: int)
    requires
        g.in_bounds(row, col),
    ensures
        0 <= row * g.size <= g.index(row, col) < g.size * g.size,
        g.index(row, col) / (g.size as int) == row,
        g.index(row, col) % (g.size as int) == col,
{
    let n = g.size as int;
    assert(0 <= row * n && row * n + n <= n * n) by (nonlinear_arith)
        requires
            0 <= row < n,
    ;
    lemma_fundamental_div_mod_converse(row * n + col, n, row, col);
}

/// Every index below `size * size` is the index of one pair on the grid.
pub proof fn lemma_coordinates(g: GridView, k: int)
    requires
        g.size >= 1,
        0 <= k < g.size * g.size,
    ensures
        g.in_bounds(k / (g.size as int), k % (g.size as int)),
        g.index(k / (g.size as int), k % (g.size as int)) == k,
{
    let n = g.size as int;
    lemma_fundamental_div_mod(k, n);
    assert(n * (k / n) == (k / n) * n) by (nonlinear_arith);
    assert(0 <= k / n < n) by (nonlinear_arith)
        requires
            0 <= k < n * n,
            0 < n,
            k == (k / n) * n + (k % n),
            0 <= k % n < n,
    ;
}

/// Two grids of one side that agree at every coordinate are the same grid.
pub proof fn lemma_grids_equal(a: GridView, b: GridView)
    requires
        a.wf(),
        b.wf(),
        a.size == b.size,
        forall|row: int, col: int|
            a.in_bounds(row, col) ==> a.alive(row, col) == b.alive(row, col),
    ensures
        a == b,
{
    assert forall|k: int| 0 <= k < a.cells.len() implies a.cells[k] == b.cells[k] by {
        lemma_coordinates(a, k);
        let n = a.size as int;
        assert(a.alive(k / n, k % n) == b.alive(k / n, k % n));
    }
    assert(a.cells =~= b.cells);
}

/// A cell of the following generation is the rule applied to the cell and
/// its live neighbors in this one.
pub proof fn lemma_next_cell(g: GridView, row: int, col: int)
    requires
        g.wf(),
    ensures
        g.next().wf(),
        g.next().size == g.size,
        g.next().alive(row, col) == (g.in_bounds(row, col) && rule(
            g.alive(row, col),
            g.live_neighbors(row, col),
        )),
{
    if g.in_bounds(row, col) {
        lemma_index(g, row, col);
    }
}

/// Writing one cell changes that cell and no other.
pub proof fn lemma_with_cell(g: GridView, row: int, col: int, value: bool, r: int, c: int)
    requires
        g.wf(),
        g.in_bounds(row, col),
    ensures
        g.with_cell(row, col, value).wf(),
        g.with_cell(row, col, value).alive(r, c) == (if r == row && c == col {
            value
        } else {
            g.alive(r, c)
        }),
{
    lemma_index(g, row, col);
    if g.in_bounds(r, c) {
        lemma_index(g, r, c);
    }
}

/// A square grid of cells, each alive or dead.
#[derive(Debug)]
pub struct Grid {
    size: usize,
    cells: Vec<bool>,
}

impl View for Grid {
    type V = GridView;

    closed spec fn view(&self) -> GridView {
        GridView { size: self.size as nat, cells: self.cells@ }
    }
}

impl Clone for Grid {
    fn clone(&self) -> (copy: Grid)
        ensures
            copy@ == self@,
    {
        Grid { size: self.size, cells: self.cells.clone() }
    }
}

impl Grid {
    /// The invariant of every grid this module hands out.
    pub open spec fn wf(&self) -> bool {
        self@.wf()
    }

    /// A grid of side `size` with every cell dead.
    pub fn new(size: usize) -> (grid: Grid)
        requires
            size >= 1,
            size * size <= usize::MAX,
        ensures
            grid.wf(),
            grid@ == GridView::dead(size as nat),
            grid@.size == size,
            grid@.cells.len() == size * size,
            forall|k: int| 0 <= k < grid@.cells.len() ==> !grid@.cells[k],
            forall|row: int, col: int| !grid@.alive(row, col),
    {
        let cells = vec![false; size * size];
        let grid = Grid { size, cells };
        proof {
            assert(grid@.cells =~= GridView::dead(size as nat).cells);
            assert forall|row: int, col: int| !grid@.alive(row, col) by {
                if grid@.in_bounds(row, col) {
                    lemma_index(grid@, row, col);
                }
            }
        }
        grid
    }

    /// The side length. The cells of a grid fit in memory, so the square of
    /// its side fits in `usize`.
    pub fn size(&self) -> (size: usize)
        ensures
            size == self@.size,
            self.wf() ==> size * size <= usize::MAX,
    {
        proof {
            assert(self.cells@.len() == self.cells.len());
        }
        self.size
    }

    /// Whether the cell at `(row, col)` is alive.
    pub fn get(&self, row: usize, col: usize) -> (alive: bool)
        requires
            self.wf(),
            row < self@.size,
            col < self@.size,
        ensures
            alive == self@.alive(row as int, col as int),
    {
        proof {
            lemma_index(self@, row as int, col as int);
            assert(self.cells@.len() == self.cells.len());
        }
        self.cells[row * self.size + col]
    }

    /// Makes the cell at `(row, col)` alive or dead.
    pub fn set(&mut self, row: usize, col: usize, value: bool)
        requires
            old(self).wf(),
            row < old(self)@.size,
            col < old(self)@.size,
        ensures
            final(self).wf(),
            final(self)@ == old(self)@.with_cell(row as int, col as int, value),
            final(self)@.size == old(self)@.size,
            final(self)@.alive(row as int, col as int) == value,
            forall|r: int, c: int|
                !(r == row && c == col) ==> final(self)@.alive(r, c) == old(self)@.alive(r, c),
    {
        proof {
            lemma_index(self@, row as int, col as int);
            assert(self.cells@.len() == self.cells.len());
        }
        let index = row * self.size + col;
        self.cells.set(index, value);
        proof {
            assert forall|r: int, c: int|
                self@.alive(r, c) == (if r == row && c == col {
                    value
                } else {
                    old(self)@.alive(r, c)
                }) by {
                lemma_with_cell(old(self)@, row as int, col as int, value, r, c);
            }
        }
    }

    /// Counts the live cells among the eight around `(row, col)`. A
    /// neighbor off the grid is dead.
    pub fn count_live_neighbors(&self, row: usize, col: usize) -> (count: u8)
        requires
            self.wf(),
            row < self@.size,
            col < self@.size,
        ensures
            count == self@.live_neighbors(row as int, col as int),
            count <= 8,
    {
        proof {
            assert(self.cells@.len() == self.cells.len());
            let n = self.size as int;
            assert(n >= 3 ==> n * n >= n + 2) by (nonlinear_arith);
        }
        let mut count: u8 = 0;
        for i in 0..3usize
            invariant
                self.wf(),
                row < self.size,
                col < self.size,
                self.size + 2 <= usize::MAX,
                count == self@.block_live_before(row as int, col as int, 3 * i),
                count <= 3 * i,
        {
            for j in 0..3usize
                invariant
                    self.wf(),
                    row < self.size,
                    col < self.size,
                    self.size + 2 <= usize::MAX,
                    i < 3,
                    count == self@.block_live_before(row as int, col as int, 3 * i + j),
                    count <= 3 * i + j,
            {
                if !(i == 1 && j == 1) {
                    let r = row + i;
                    let c = col + j;
                    if r >= 1 && r - 1 < self.size && c >= 1 && c - 1 < self.size {
                        if self.get(r - 1, c - 1) {
                            count += 1;
                        }
                    }
                }
            }
        }
        proof {
            lemma_block_total(self@, row as int, col as int);
        }
        count
    }

    /// Computes the following generation as a new grid. Every cell is decided
    /// from this grid alone, which is left untouched.
    pub fn next_generation(&self) -> (next: Grid)
        requires
            self.wf(),
        ensures
            next.wf(),
            next@.size == self@.size,
            next@ == self@.next(),
            forall|row: int, col: int|
                self@.in_bounds(row, col) ==> next@.alive(row, col) == rule(
                    self@.alive(row, col),
                    self@.live_neighbors(row, col),
                ),
    {
        proof {
            assert(self.cells@.len() == self.cells.len());
        }
        let mut next = Grid::new(self.size);
        for row in 0..self.size
            invariant
                self.wf(),
                next.wf(),
                next@.size == self@.size,
                forall|r: int, c: int|
                    self@.in_bounds(r, c) && r < row ==> #[trigger] next@.alive(r, c) == rule(
                        self@.alive(r, c),
                        self@.live_neighbors(r, c),
                    ),
        {
            for col in 0..self.size
                invariant
                    self.wf(),
                    next.wf(),
                    next@.size == self@.size,
                    row < self.size,
                    forall|r: int, c: int|
                        self@.in_bounds(r, c) && (r < row || (r == row && c < col))
                            ==> #[trigger] next@.alive(r, c) == rule(
                            self@.alive(r, c),
                            self@.live_neighbors(r, c),
                        ),
            {
                let neighbors = self.count_live_neighbors(row, col);
                let is_alive = self.get(row, col);
                next.set(row, col, (is_alive && neighbors == 2) || neighbors == 3);
            }
        }
        proof {
            assert forall|r: int, c: int| self@.in_bounds(r, c) implies next@.alive(r, c)
                == self@.next().alive(r, c) by {
                lemma_next_cell(self@, r, c);
            }
            lemma_next_cell(self@, 0, 0);
            lemma_grids_equal(next@, self@.next());
        }
        next
    }
}

} // verus!
