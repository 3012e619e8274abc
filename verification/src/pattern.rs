//! Patterns: the rows of cells read from the lines of a pattern text.

use crate::grid::lemma_grids_equal;
use crate::grid::lemma_index;
use crate::grid::Grid;
use crate::grid::GridView;
use crate::text::texts_of;
use vstd::prelude::*;

verus! {

/// A line that starts with `!` is a comment and gives no row.
pub open spec fn is_comment(line: Seq<char>) -> bool {
    line.len() > 0 && line[0] == '!'
}

/// The row that a data line stands for: one cell per character, alive where
/// the character is `O`.
pub open spec fn row_of(line: Seq<char>) -> Seq<bool> {
    Seq::new(line.len(), |j: int| line[j] == 'O')
}

/// The rows of a pattern text: comment lines are skipped, every other line
/// gives one row, in order. Rows may differ in length.
pub open spec fn rows_of(lines: Seq<Seq<char>>) -> Seq<Seq<bool>>
    decreases lines.len(),
{
    if lines.len() == 0 {
        Seq::empty()
    } else if is_comment(lines.last()) {
        rows_of(lines.drop_last())
    } else {
        rows_of(lines.drop_last()).push(row_of(lines.last()))
    }
}

/// The length of the longest row, `0` where there is none.
pub open spec fn max_width(rows: Seq<Seq<bool>>) -> nat
    decreases rows.len(),
{
    if rows.len() == 0 {
        0
    } else if rows.last().len() > max_width(rows.drop_last()) {
        rows.last().len()
    } else {
        max_width(rows.drop_last())
    }
}

/// Whether a pattern of these rows can be placed on a grid of side `size`.
pub open spec fn fits_in(rows: Seq<Seq<bool>>, size: nat) -> bool {
    rows.len() <= size && max_width(rows) <= size
}

/// The grid row that the first pattern row goes to: the pattern is centered,
/// and an odd margin leaves the smaller half above.
pub open spec fn start_row(rows: Seq<Seq<bool>>, size: nat) -> int {
    (size - rows.len()) / 2
}

/// The grid column that the first cell of every pattern row goes to.
pub open spec fn start_col(rows: Seq<Seq<bool>>, size: nat) -> int {
    (size - max_width(rows)) / 2
}

/// The cell of the pattern at row `i` and column `j` of its bounding box. A
/// row shorter than the longest is dead in the columns that it lacks.
pub open spec fn pattern_cell(rows: Seq<Seq<bool>>, i: int, j: int) -> bool {
    0 <= i < rows.len() && 0 <= j < rows[i].len() && rows[i][j]
}

/// Whether `(row, col)` lies in the bounding box of the placed pattern: as
/// many rows as the pattern has, as many columns as its longest row.
pub open spec fn covers(rows: Seq<Seq<bool>>, size: nat, row: int, col: int) -> bool {
    let i = row - start_row(rows, size);
    let j = col - start_col(rows, size);
    0 <= i < rows.len() && 0 <= j < max_width(rows)
}

/// The cell at `(row, col)` once the pattern is placed on `g`: the pattern's
/// cell inside its bounding box, the cell of `g` outside.
pub open spec fn placed(g: GridView, rows: Seq<Seq<bool>>, row: int, col: int) -> bool {
    if covers(rows, g.size, row, col) {
        pattern_cell(rows, row - start_row(rows, g.size), col - start_col(rows, g.size))
    } else {
        g.alive(row, col)
    }
}

impl GridView {
    /// This grid with the pattern written over its center.
    pub open spec fn with_pattern(self, rows: Seq<Seq<bool>>) -> GridView {
        GridView {
            size: self.size,
            cells: Seq::new(
                self.cells.len(),
                |k: int| placed(self, rows, k / (self.size as int), k % (self.size as int)),
            ),
        }
    }
}

/// No row is longer than `max_width`, and a pattern with a row has one of
/// that length.
pub proof fn lemma_max_width(rows: Seq<Seq<bool>>)
    ensures
        forall|i: int| 0 <= i < rows.len() ==> (#[trigger] rows[i]).len() <= max_width(rows),
        rows.len() > 0 ==> exists|i: int|
            0 <= i < rows.len() && (#[trigger] rows[i]).len() == max_width(rows),
    decreases rows.len(),
{
    if rows.len() > 0 {
        let front = rows.drop_last();
        lemma_max_width(front);
        assert forall|i: int| 0 <= i < rows.len() implies (#[trigger] rows[i]).len()
            <= max_width(rows) by {
            if i < front.len() {
                assert(front[i] == rows[i]);
            }
        }
        if rows.last().len() > max_width(front) || front.len() == 0 {
            assert(rows[rows.len() - 1].len() == max_width(rows));
        } else {
            let i = choose|i: int|
                0 <= i < front.len() && (#[trigger] front[i]).len() == max_width(front);
            assert(rows[i] == front[i]);
        }
    }
}

/// The bounding box of a pattern that fits lies on the grid, and a cell of
/// the placed grid is `placed` of its coordinate.
pub proof fn lemma_with_pattern(g: GridView, rows: Seq<Seq<bool>>, row: int, col: int)
    requires
        g.wf(),
        fits_in(rows, g.size),
    ensures
        g.with_pattern(rows).wf(),
        g.with_pattern(rows).size == g.size,
        covers(rows, g.size, row, col) ==> g.in_bounds(row, col),
        g.with_pattern(rows).alive(row, col) == placed(g, rows, row, col),
{
    lemma_max_width(rows);
    if g.in_bounds(row, col) {
        lemma_index(g, row, col);
    }
}

/// Reads one line: `None` for a comment, else its row.
pub fn parse_line(line: &str) -> (row: Option<Vec<bool>>)
    ensures
        row is None <==> is_comment(line@),
        row matches Some(cells) ==> cells@ == row_of(line@),
{
    broadcast use vstd::string::group_string_axioms;

    let mut cells: Vec<bool> = Vec::new();
    let mut comment = false;
    for c in it: line.chars()
        invariant
            it.seq() == line@,
            cells@ == row_of(line@.take(it.index())),
            comment == is_comment(line@.take(it.index())),
    {
        if cells.len() == 0 && c == '!' {
            comment = true;
        }
        cells.push(c == 'O');
        assert(cells@ =~= row_of(line@.take(it.index() + 1)));
    }
    assert(line@.take(line@.len() as int) =~= line@);
    if comment {
        None
    } else {
        Some(cells)
    }
}

/// The rows of cells to place on a grid. Rows may differ in length.
#[derive(Debug)]
pub struct Pattern {
    rows: Vec<Vec<bool>>,
    width: usize,
}

impl View for Pattern {
    type V = Seq<Seq<bool>>;

    closed spec fn view(&self) -> Seq<Seq<bool>> {
        Seq::new(self.rows@.len(), |i: int| self.rows@[i]@)
    }
}

impl Pattern {
    /// The invariant of every pattern this module hands out.
    pub closed spec fn wf(&self) -> bool {
        self.width == max_width(self@)
    }

    /// Reads a pattern from the lines of its text. A line that starts with
    /// `!` is skipped; in every other line `O` is a live cell and any other
    /// character a dead one.
    pub fn parse(lines: &Vec<String>) -> (pattern: Pattern)
        ensures
            pattern.wf(),
            pattern@ == rows_of(texts_of(lines@)),
    {
        let ghost text = texts_of(lines@);
        let mut pattern = Pattern { rows: Vec::new(), width: 0 };
        assert(pattern@ =~= rows_of(text.take(0)));
        for n in 0..lines.len()
            invariant
                text == texts_of(lines@),
                pattern.wf(),
                pattern@ == rows_of(text.take(n as int)),
        {
            let ghost before = pattern@;
            proof {
                assert(text.take(n + 1).drop_last() =~= text.take(n as int));
                assert(text.take(n + 1).last() == lines@[n as int]@);
            }
            match parse_line(lines[n].as_str()) {
                Some(cells) => {
                    if cells.len() > pattern.width {
                        pattern.width = cells.len();
                    }
                    pattern.rows.push(cells);
                    proof {
                        assert(pattern@ =~= before.push(cells@));
                        assert(pattern@.drop_last() =~= before);
                    }
                },
                None => {
                    assert(pattern@ =~= before);
                },
            }
        }
        assert(text.take(lines@.len() as int) =~= text);
        pattern
    }

    /// The number of rows.
    pub fn height(&self) -> (height: usize)
        ensures
            height == self@.len(),
    {
        self.rows.len()
    }

    /// The length of the longest row.
    pub fn width(&self) -> (width: usize)
        requires
            self.wf(),
        ensures
            width == max_width(self@),
    {
        self.width
    }

    /// Whether the pattern can be placed on a grid of side `size`.
    pub fn fits(&self, size: usize) -> (fits: bool)
        requires
            self.wf(),
        ensures
            fits == fits_in(self@, size as nat),
    {
        self.rows.len() <= size && self.width <= size
    }
}

impl Grid {
    /// Writes the pattern over the center of the grid. The first cell of the
    /// first row goes to row `(size - height) / 2` and column
    /// `(size - width) / 2`, rounded down. Inside the pattern's bounding box
    /// a column that a short row lacks becomes dead; a cell outside the box
    /// keeps its value.
    pub fn load_pattern(&mut self, pattern: &Pattern)
        requires
            old(self).wf(),
            pattern.wf(),
            fits_in(pattern@, old(self)@.size),
        ensures
            final(self).wf(),
            final(self)@.size == old(self)@.size,
            final(self)@ == old(self)@.with_pattern(pattern@),
            forall|row: int, col: int| #[trigger]
                final(self)@.alive(row, col) == placed(old(self)@, pattern@, row, col),
            forall|i: int, j: int|
                0 <= i < pattern@.len() && 0 <= j < pattern@[i].len()
                    ==> #[trigger] final(self)@.alive(
                    (old(self)@.size - pattern@.len()) / 2 + i,
                    (old(self)@.size - max_width(pattern@)) / 2 + j,
                ) == pattern@[i][j],
            forall|i: int, j: int|
                0 <= i < pattern@.len() && pattern@[i].len() <= j < max_width(pattern@)
                    ==> !#[trigger] final(self)@.alive(
                    (old(self)@.size - pattern@.len()) / 2 + i,
                    (old(self)@.size - max_width(pattern@)) / 2 + j,
                ),
            forall|row: int, col: int|
                !covers(pattern@, old(self)@.size, row, col) ==> #[trigger] final(self)@.alive(
                    row,
                    col,
                ) == old(self)@.alive(row, col),
    {
        let size = self.size();
        let ghost rows = pattern@;
        let ghost start = old(self)@;
        let first_row = (size - pattern.rows.len()) / 2;
        let first_col = (size - pattern.width) / 2;
        for i in 0..pattern.rows.len()
            invariant
                self.wf(),
                pattern.wf(),
                self@.size == size,
                start.size == size,
                rows == pattern@,
                fits_in(rows, size as nat),
                first_row == start_row(rows, size as nat),
                first_col == start_col(rows, size as nat),
                forall|r: int, c: int| #[trigger]
                    self@.alive(r, c) == (if r - first_row < i {
                        placed(start, rows, r, c)
                    } else {
                        start.alive(r, c)
                    }),
        {
            let row = &pattern.rows[i];
            assert(row@ == rows[i as int]);
            for j in 0..pattern.width
                invariant
                    self.wf(),
                    pattern.wf(),
                    self@.size == size,
                    start.size == size,
                    rows == pattern@,
                    fits_in(rows, size as nat),
                    first_row == start_row(rows, size as nat),
                    first_col == start_col(rows, size as nat),
                    i < rows.len(),
                    row@ == rows[i as int],
                    forall|r: int, c: int| #[trigger]
                        self@.alive(r, c) == (if r - first_row < i || (r - first_row == i && c
                            - first_col < j) {
                            placed(start, rows, r, c)
                        } else {
                            start.alive(r, c)
                        }),
            {
                let cell = j < row.len() && row[j];
                self.set(first_row + i, first_col + j, cell);
            }
        }
        proof {
            assert forall|r: int, c: int| #[trigger]
                self@.alive(r, c) == placed(start, rows, r, c) by {
                lemma_with_pattern(start, rows, r, c);
            }
            assert forall|r: int, c: int| self@.in_bounds(r, c) implies self@.alive(r, c)
                == start.with_pattern(rows).alive(r, c) by {
                lemma_with_pattern(start, rows, r, c);
            }
            lemma_with_pattern(start, rows, 0, 0);
            lemma_grids_equal(self@, start.with_pattern(rows));
            lemma_max_width(rows);
            assert forall|i: int, j: int|
                0 <= i < rows.len() && 0 <= j < rows[i].len() implies #[trigger] self@.alive(
                (size - rows.len()) / 2 + i,
                (size - max_width(rows)) / 2 + j,
            ) == rows[i][j] by {
                assert(covers(rows, size as nat, first_row + i, first_col + j));
            }
            assert forall|i: int, j: int|
                0 <= i < rows.len() && rows[i].len() <= j < max_width(rows)
                implies !#[trigger] self@.alive(
                (size - rows.len()) / 2 + i,
                (size - max_width(rows)) / 2 + j,
            ) by {
                assert(covers(rows, size as nat, first_row + i, first_col + j));
            }
        }
    }
}

} // verus!
