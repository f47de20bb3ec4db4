//! The character grid the scene is drawn on.

use vstd::prelude::*;

verus! {

/// A colour as red, green and blue channels.
pub type Rgb = (u8, u8, u8);

/// The colour of the scene's background.
pub open spec fn black() -> Rgb {
    (0u8, 0u8, 0u8)
}

/// One character cell of the terminal.
#[derive(Clone, Copy)]
pub struct Cell {
    pub ch: char,
    pub fg: Rgb,
    pub bg: Rgb,
    pub bold: bool,
}

/// `c` showing `ch` in colour `fg`, with its background and weight kept.
pub open spec fn with_glyph(c: Cell, ch: char, fg: Rgb) -> Cell {
    Cell { ch, fg, ..c }
}

/// Glyphs that decorations (rays, confetti) may paint over: blank cells and
/// the faint glyphs of other decorations.
pub open spec fn is_overlay_glyph(ch: char) -> bool {
    ch == ' ' || ch == '─' || ch == '│' || ch == '+' || ch == '.' || ch == '*'
}

/// Executable form of [`is_overlay_glyph`].
pub fn overlay_glyph(ch: char) -> (b: bool)
    ensures
        b == is_overlay_glyph(ch),
{
    ch == ' ' || ch == '─' || ch == '│' || ch == '+' || ch == '.' || ch == '*'
}

/// A `cols` by `rows` grid of cells stored row by row.
pub struct Grid {
    cols: usize,
    rows: usize,
    cells: Vec<Cell>,
}

/// `y * cols + x` addresses a distinct cell inside the grid for every
/// in-range pair `(x, y)`.
proof fn lemma_cell_index(cols: int, rows: int, x: int, y: int, a: int, b: int)
    requires
        0 <= x < cols,
        0 <= y < rows,
        0 <= a < cols,
        0 <= b < rows,
    ensures
        0 <= y * cols + x < cols * rows,
        (x != a || y != b) ==> y * cols + x != b * cols + a,
{
    assert(0 <= y * cols + x < cols * rows) by (nonlinear_arith)
        requires
            0 <= x < cols,
            0 <= y < rows,
    ;
    if y == b {
    } else if y < b {
        assert(y * cols + x < b * cols + a) by (nonlinear_arith)
            requires
                0 <= x < cols,
                0 <= a,
                y < b,
        ;
    } else {
        assert(b * cols + a < y * cols + x) by (nonlinear_arith)
            requires
                0 <= a < cols,
                0 <= x,
                b < y,
        ;
    }
}

impl Grid {
    /// The grid holds exactly `cols * rows` cells.
    pub closed spec fn wf(&self) -> bool {
        self.cells@.len() == self.cols * self.rows
    }

    /// Number of columns.
    pub closed spec fn width(&self) -> nat {
        self.cols as nat
    }

    /// Number of rows.
    pub closed spec fn height(&self) -> nat {
        self.rows as nat
    }

    /// The dimensions are machine sizes, and so is the number of cells of a
    /// well-formed grid.
    pub proof fn lemma_size(&self)
        ensures
            self.width() <= usize::MAX,
            self.height() <= usize::MAX,
            self.wf() ==> self.width() * self.height() <= usize::MAX,
    {
        assert(self.cells@.len() == self.cells.len());
    }

    /// The cell in column `x` of row `y` is the cells' entry `y * width + x`.
    pub proof fn lemma_cells_view(&self)
        requires
            self.wf(),
        ensures
            self.cells_view().len() == self.width() * self.height(),
            forall|x: int, y: int|
                self.in_bounds(x, y) ==> #[trigger] self.cell(x, y) == self.cells_view()[y
                    * self.width() + x],
    {
    }

    /// Whether `(x, y)` lies on the grid.
    pub open spec fn in_bounds(&self, x: int, y: int) -> bool {
        0 <= x < self.width() && 0 <= y < self.height()
    }

    /// The cell in column `x` of row `y`.
    pub closed spec fn cell(&self, x: int, y: int) -> Cell {
        self.cells@[y * self.cols + x]
    }

    /// The cells row by row.
    pub closed spec fn cells_view(&self) -> Seq<Cell> {
        self.cells@
    }

    /// The grid of `cols * rows` copies of `fill`.
    pub fn new(cols: usize, rows: usize, fill: Cell) -> (g: Grid)
        requires
            cols * rows <= usize::MAX,
        ensures
            g.wf(),
            g.width() == cols,
            g.height() == rows,
            forall|x: int, y: int| g.in_bounds(x, y) ==> #[trigger] g.cell(x, y) == fill,
    {
        let n: usize = cols * rows;
        let mut cells: Vec<Cell> = Vec::new();
        while cells.len() < n
            invariant
                cells.len() <= n,
                forall|i: int| 0 <= i < cells.len() ==> #[trigger] cells@[i] == fill,
            decreases n - cells.len(),
        {
            cells.push(fill);
        }
        let g = Grid { cols, rows, cells };
        assert forall|x: int, y: int| g.in_bounds(x, y) implies #[trigger] g.cell(x, y) == fill by {
            lemma_cell_index(cols as int, rows as int, x, y, x, y);
        }
        g
    }

    /// The grid holding `cells` row by row, or `None` when their number is
    /// not `cols * rows`.
    pub fn from_cells(cols: usize, rows: usize, cells: Vec<Cell>) -> (g: Option<Grid>)
        ensures
            g is Some <==> cells@.len() == cols * rows,
            g matches Some(g) ==> g.wf() && g.width() == cols && g.height() == rows && g.cells_view()
                == cells@,
    {
        if cols.checked_mul(rows) == Some(cells.len()) {
            Some(Grid { cols, rows, cells })
        } else {
            None
        }
    }

    /// The cells row by row.
    pub fn into_cells(self) -> (cells: Vec<Cell>)
        requires
            self.wf(),
        ensures
            cells@ == self.cells_view(),
            cells@.len() == self.width() * self.height(),
    {
        self.cells
    }

    /// Number of columns.
    pub fn cols(&self) -> (n: usize)
        ensures
            n == self.width(),
    {
        self.cols
    }

    /// Number of rows.
    pub fn rows(&self) -> (n: usize)
        ensures
            n == self.height(),
    {
        self.rows
    }

    /// The cell in column `x` of row `y`.
    pub fn get(&self, x: usize, y: usize) -> (c: Cell)
        requires
            self.wf(),
            self.in_bounds(x as int, y as int),
        ensures
            c == self.cell(x as int, y as int),
    {
        proof {
            lemma_cell_index(self.cols as int, self.rows as int, x as int, y as int, x as int, y as int);
            assert(y * self.cols + x < self.cells.len());
        }
        self.cells[y * self.cols + x]
    }

    /// Writes `c` into column `x` of row `y`; a position off the grid is
    /// ignored.
    pub fn put(&mut self, x: usize, y: usize, c: Cell)
        requires
            old(self).wf(),
        ensures
            final(self).wf(),
            final(self).width() == old(self).width(),
            final(self).height() == old(self).height(),
            forall|a: int, b: int|
                final(self).in_bounds(a, b) ==> #[trigger] final(self).cell(a, b) == if a == x
                    && b == y {
                    c
                } else {
                    old(self).cell(a, b)
                },
    {
        if x < self.cols && y < self.rows {
            proof {
                lemma_cell_index(self.cols as int, self.rows as int, x as int, y as int, x as int, y as int);
                assert(y * self.cols + x < self.cells.len());
            }
            let idx: usize = y * self.cols + x;
            self.cells.set(idx, c);
            proof {
                assert forall|a: int, b: int| self.in_bounds(a, b) implies #[trigger] self.cell(a, b)
                    == if a == x && b == y {
                    c
                } else {
                    old(self).cell(a, b)
                } by {
                    lemma_cell_index(self.cols as int, self.rows as int, x as int, y as int, a, b);
                    lemma_cell_index(self.cols as int, self.rows as int, a, b, x as int, y as int);
                }
            }
        }
    }

    /// Replaces the glyph and foreground colour of column `x` of row `y`,
    /// keeping its background and weight; a position off the grid is ignored.
    pub fn set_glyph(&mut self, x: usize, y: usize, ch: char, fg: Rgb)
        requires
            old(self).wf(),
        ensures
            final(self).wf(),
            final(self).width() == old(self).width(),
            final(self).height() == old(self).height(),
            forall|a: int, b: int|
                final(self).in_bounds(a, b) ==> #[trigger] final(self).cell(a, b) == if a == x
                    && b == y {
                    with_glyph(old(self).cell(a, b), ch, fg)
                } else {
                    old(self).cell(a, b)
                },
    {
        if x < self.cols && y < self.rows {
            let old_cell = self.get(x, y);
            self.put(x, y, Cell { ch, fg, bg: old_cell.bg, bold: old_cell.bold });
        }
    }

    /// Like [`Grid::set_glyph`], but only where the cell shows an overlay
    /// glyph (see [`is_overlay_glyph`]).
    pub fn paint_over(&mut self, x: usize, y: usize, ch: char, fg: Rgb)
        requires
            old(self).wf(),
        ensures
            final(self).wf(),
            final(self).width() == old(self).width(),
            final(self).height() == old(self).height(),
            forall|a: int, b: int|
                final(self).in_bounds(a, b) ==> #[trigger] final(self).cell(a, b) == if a == x
                    && b == y && is_overlay_glyph(old(self).cell(a, b).ch) {
                    with_glyph(old(self).cell(a, b), ch, fg)
                } else {
                    old(self).cell(a, b)
                },
    {
        if x < self.cols && y < self.rows {
            let old_cell = self.get(x, y);
            if overlay_glyph(old_cell.ch) {
                self.put(x, y, Cell { ch, fg, bg: old_cell.bg, bold: old_cell.bold });
            }
        }
    }

    /// Paints the background of every cell black and leaves everything else
    /// as it was.
    pub fn clear_background(&mut self)
        requires
            old(self).wf(),
        ensures
            final(self).wf(),
            final(self).width() == old(self).width(),
            final(self).height() == old(self).height(),
            forall|a: int, b: int|
                final(self).in_bounds(a, b) ==> #[trigger] final(self).cell(a, b) == (Cell {
                    bg: black(),
                    ..old(self).cell(a, b)
                }),
    {
        let n: usize = self.cells.len();
        let mut i: usize = 0;
        while i < n
            invariant
                self.cols == old(self).cols,
                self.rows == old(self).rows,
                n == self.cells@.len(),
                n == old(self).cells@.len(),
                i <= n,
                forall|k: int|
                    0 <= k < n ==> #[trigger] self.cells@[k] == if k < i {
                        Cell { bg: black(), ..old(self).cells@[k] }
                    } else {
                        old(self).cells@[k]
                    },
            decreases n - i,
        {
            let c = self.cells[i];
            self.cells.set(i, Cell { bg: (0, 0, 0), ..c });
            i = i + 1;
        }
        proof {
            assert forall|a: int, b: int| self.in_bounds(a, b) implies #[trigger] self.cell(a, b) == (
            Cell { bg: black(), ..old(self).cell(a, b) }) by {
                lemma_cell_index(self.cols as int, self.rows as int, a, b, a, b);
            }
        }
    }
}

} // verus!
