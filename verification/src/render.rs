//! Text snapshots of a grid: one line per row, `O` for a live cell and `.`
//! for a dead one.

use crate::grid::Grid;
use crate::grid::GridView;
use vstd::prelude::*;

verus! {

impl GridView {
    /// The character that stands for the cell at `(row, col)`.
    pub open spec fn cell_char(self, row: int, col: int) -> char {
        if self.alive(row, col) {
            'O'
        } else {
            '.'
        }
    }

    /// Where the character of `(row, col)` stands in the text: a row takes
    /// `size + 1` characters. Column `size` is the place of the row's newline.
    pub open spec fn char_index(self, row: int, col: int) -> int {
        row * (self.size + 1) + col
    }

    /// The characters of one row, without the line end.
    pub open spec fn row_text(self, row: int) -> Seq<char> {
        Seq::new(self.size, |col: int| self.cell_char(row, col))
    }

    /// The first `rows` rows, each followed by a newline.
    pub open spec fn rows_text(self, rows: nat) -> Seq<char>
        decreases rows,
    {
        if rows == 0 {
            Seq::empty()
        } else {
            self.rows_text((rows - 1) as nat) + self.row_text(rows - 1) + seq!['\n']
        }
    }

    /// The whole grid as text.
    pub open spec fn rendered(self) -> Seq<char> {
        self.rows_text(self.size)
    }
}

/// Where each cell stands in the first `rows` rows of text: a row takes
/// `size + 1` characters, its cells in order and then the newline.
pub proof fn lemma_rows_text_layout(g: GridView, rows: nat, row: int, col: int)
    requires
        0 <= row < rows,
        0 <= col <= g.size,
    ensures
        g.rows_text(rows).len() == rows * (g.size + 1),
        0 <= row * (g.size + 1) + col < g.rows_text(rows).len(),
        g.rows_text(rows)[row * (g.size + 1) + col] == (if col < g.size {
            g.cell_char(row, col)
        } else {
            '\n'
        }),
    decreases rows,
{
    let w = (g.size + 1) as int;
    let before = g.rows_text((rows - 1) as nat);
    assert(before.len() == (rows - 1) * w) by {
        if rows > 1 {
            lemma_rows_text_layout(g, (rows - 1) as nat, 0, 0);
        }
    }
    assert(rows * w == (rows - 1) * w + w && 0 <= row * w && row * w + w <= rows * w)
        by (nonlinear_arith)
        requires
            0 <= row < rows,
            0 < w,
    ;
    if row < rows - 1 {
        lemma_rows_text_layout(g, (rows - 1) as nat, row, col);
    }
}

/// The text of a grid puts `O` exactly where a cell is alive, `.` where it
/// is dead, and a newline after the last cell of each row.
pub proof fn lemma_rendered_layout(g: GridView, row: int, col: int)
    requires
        g.in_bounds(row, col),
    ensures
        g.rendered().len() == g.size * (g.size + 1),
        0 <= g.char_index(row, col) < g.char_index(row, g.size as int) < g.rendered().len(),
        g.rendered()[g.char_index(row, col)] == g.cell_char(row, col),
        g.rendered()[g.char_index(row, col)] == 'O' <==> g.alive(row, col),
        g.rendered()[g.char_index(row, col)] == '.' <==> !g.alive(row, col),
        g.rendered()[g.char_index(row, g.size as int)] == '\n',
{
    lemma_rows_text_layout(g, g.size, row, col);
    lemma_rows_text_layout(g, g.size, row, g.size as int);
}

impl Grid {
    /// Writes the grid as text: for each row its cells from left to right,
    /// `O` for alive and `.` for dead, then a newline.
    pub fn render(&self) -> (text: String)
        requires
            self.wf(),
        ensures
            text@ == self@.rendered(),
            text@.len() == self@.size * (self@.size + 1),
            forall|row: int, col: int|
                self@.in_bounds(row, col) ==> text@[#[trigger] self@.char_index(row, col)]
                    == self@.cell_char(row, col),
            forall|row: int|
                0 <= row < self@.size
                    ==> text@[#[trigger] self@.char_index(row, self@.size as int)] == '\n',
    {
        let size = self.size();
        let mut text = String::new();
        for row in 0..size
            invariant
                self.wf(),
                size == self@.size,
                text@ == self@.rows_text(row as nat),
        {
            let ghost done = text@;
            for col in 0..size
                invariant
                    self.wf(),
                    size == self@.size,
                    row < size,
                    done == self@.rows_text(row as nat),
                    text@ == done + self@.row_text(row as int).take(col as int),
            {
                let ghost line = self@.row_text(row as int);
                proof {
                    reveal_strlit("O");
                    reveal_strlit(".");
                    assert(line.take(col + 1) =~= line.take(col as int).push(
                        self@.cell_char(row as int, col as int),
                    ));
                }
                if self.get(row, col) {
                    text.append("O");
                    assert(text@ =~= done + line.take(col + 1));
                } else {
                    text.append(".");
                    assert(text@ =~= done + line.take(col + 1));
                }
            }
            text.append("\n");
            proof {
                reveal_strlit("\n");
                let line = self@.row_text(row as int);
                assert(line.take(size as int) =~= line);
                assert(text@ =~= self@.rows_text((row + 1) as nat));
            }
        }
        proof {
            lemma_rendered_layout(self@, 0, 0);
            let n = self@.size as int;
            assert forall|row: int, col: int| self@.in_bounds(row, col) implies
                text@[#[trigger] self@.char_index(row, col)] == self@.cell_char(row, col) by {
                lemma_rendered_layout(self@, row, col);
            }
            assert forall|row: int| 0 <= row < n implies
                text@[#[trigger] self@.char_index(row, n)] == '\n' by {
                lemma_rendered_layout(self@, row, 0);
            }
        }
        text
    }
}

} // verus!
