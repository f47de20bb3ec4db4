//! The system logo in the middle of the screen.

use vstd::prelude::*;
use crate::grid::{Cell, Grid, Rgb};

verus! {

/// `w` is the length of the longest of `lines`, and 0 when there are none.
pub open spec fn is_logo_width(lines: Seq<Vec<char>>, w: int) -> bool {
    &&& forall|r: int| 0 <= r < lines.len() ==> #[trigger] lines[r]@.len() <= w
    &&& if lines.len() == 0 {
        w == 0
    } else {
        exists|r: int| 0 <= r < lines.len() && #[trigger] lines[r]@.len() == w
    }
}

/// Width and height of the logo made of `lines`.
pub fn logo_extent(lines: &Vec<Vec<char>>) -> (wh: (usize, usize))
    ensures
        is_logo_width(lines@, wh.0 as int),
        wh.1 == lines@.len(),
{
    let mut w: usize = 0;
    let mut r: usize = 0;
    while r < lines.len()
        invariant
            r <= lines.len(),
            forall|k: int| 0 <= k < r ==> #[trigger] lines@[k]@.len() <= w,
            if r == 0 {
                w == 0
            } else {
                exists|k: int| 0 <= k < r && #[trigger] lines@[k]@.len() == w
            },
        decreases lines.len() - r,
    {
        let len: usize = lines[r].len();
        if len > w || r == 0 {
            w = len;
        }
        r = r + 1;
    }
    (w, lines.len())
}

/// Where a logo of `w` by `h` cells starts so that it is centred on a
/// `cols` by `rows` screen (at the left or top edge when it does not fit).
pub open spec fn logo_origin_spec(cols: int, rows: int, w: int, h: int) -> (int, int) {
    (if cols >= w { (cols - w) / 2 } else { 0 }, if rows >= h { (rows - h) / 2 } else { 0 })
}

/// Where a logo of `w` by `h` cells starts on a `cols` by `rows` screen.
pub fn logo_origin(cols: usize, rows: usize, w: usize, h: usize) -> (o: (usize, usize))
    ensures
        o.0 == logo_origin_spec(cols as int, rows as int, w as int, h as int).0,
        o.1 == logo_origin_spec(cols as int, rows as int, w as int, h as int).1,
{
    (cols.saturating_sub(w) / 2, rows.saturating_sub(h) / 2)
}

/// The cell `c` with `ch` written in bold `fg`.
pub open spec fn with_logo_glyph(c: Cell, ch: char, fg: Rgb) -> Cell {
    Cell { ch, fg, bold: true, ..c }
}

/// The character of the logo made of `lines` and placed at `(ox, oy)` that
/// covers the cell `(a, b)`, if any; blanks are transparent.
pub open spec fn logo_glyph_at(lines: Seq<Vec<char>>, ox: int, oy: int, a: int, b: int) -> Option<char> {
    let r = b - oy;
    let k = a - ox;
    if 0 <= r < lines.len() && 0 <= k < lines[r]@.len() && lines[r]@[k] != ' ' {
        Some(lines[r]@[k])
    } else {
        None
    }
}

/// What drawing the logo `lines` in colour `fg` on a `cols` by `rows` screen
/// leaves in the cell `(a, b)` that held `c`. The logo is centred (see
/// [`logo_origin_spec`]) and drawn only when it starts on the screen.
pub open spec fn logo_cell(c: Cell, a: int, b: int, lines: Seq<Vec<char>>, cols: int, rows: int, fg: Rgb) -> Cell {
    let w = choose|w: int| is_logo_width(lines, w);
    let o = logo_origin_spec(cols, rows, w, lines.len() as int);
    if o.0 < cols && o.1 < rows {
        match logo_glyph_at(lines, o.0, o.1, a, b) {
            Some(ch) => with_logo_glyph(c, ch, fg),
            None => c,
        }
    } else {
        c
    }
}

/// Lines before `r` drawn, and line `r` up to column `k`.
spec fn logo_drawn(c: Cell, a: int, b: int, lines: Seq<Vec<char>>, ox: int, oy: int, fg: Rgb, r: int, k: int) -> Cell {
    match logo_glyph_at(lines, ox, oy, a, b) {
        Some(ch) => if b - oy < r || (b - oy == r && a - ox < k) {
            with_logo_glyph(c, ch, fg)
        } else {
            c
        },
        None => c,
    }
}

/// Draws the logo made of `lines` in bold `fg`, centred on the grid; blank
/// characters of the logo and the parts that fall off the grid are skipped.
/// Every other cell is left as it was.
pub fn render_logo(grid: &mut Grid, lines: &Vec<Vec<char>>, fg: Rgb)
    requires
        old(grid).wf(),
    ensures
        final(grid).wf(),
        final(grid).width() == old(grid).width(),
        final(grid).height() == old(grid).height(),
        forall|a: int, b: int|
            final(grid).in_bounds(a, b) ==> #[trigger] final(grid).cell(a, b) == logo_cell(
                old(grid).cell(a, b),
                a,
                b,
                lines@,
                old(grid).width() as int,
                old(grid).height() as int,
                fg,
            ),
{
    let cols = grid.cols();
    let rows = grid.rows();
    let (w, h) = logo_extent(lines);
    let (ox, oy) = logo_origin(cols, rows, w, h);
    proof {
        lemma_logo_width_unique(lines@, w as int);
    }
    if !(ox < cols && oy < rows) {
        return;
    }
    let mut r: usize = 0;
    while r < h && r < rows - oy
        invariant
            grid.wf(),
            grid.width() == old(grid).width(),
            grid.height() == old(grid).height(),
            cols == grid.width(),
            rows == grid.height(),
            h == lines.len(),
            ox < cols,
            oy < rows,
            r <= h,
            forall|a: int, b: int|
                grid.in_bounds(a, b) ==> #[trigger] grid.cell(a, b) == logo_drawn(
                    old(grid).cell(a, b),
                    a,
                    b,
                    lines@,
                    ox as int,
                    oy as int,
                    fg,
                    r as int,
                    0,
                ),
        decreases h - r,
    {
        let line = &lines[r];
        let gy: usize = oy + r;
        let mut k: usize = 0;
        while k < line.len() && k < cols - ox
            invariant
                grid.wf(),
                grid.width() == old(grid).width(),
                grid.height() == old(grid).height(),
                cols == grid.width(),
                rows == grid.height(),
                h == lines.len(),
                ox < cols,
                oy < rows,
                r < h,
                gy == oy + r,
                gy < rows,
                *line == lines@[r as int],
                k <= line.len(),
                forall|a: int, b: int|
                    grid.in_bounds(a, b) ==> #[trigger] grid.cell(a, b) == logo_drawn(
                        old(grid).cell(a, b),
                        a,
                        b,
                        lines@,
                        ox as int,
                        oy as int,
                        fg,
                        r as int,
                        k as int,
                    ),
            decreases line.len() - k,
        {
            let ch = line[k];
            if ch != ' ' {
                let gx: usize = ox + k;
                let c = grid.get(gx, gy);
                grid.put(gx, gy, Cell { ch, fg, bold: true, ..c });
            }
            k = k + 1;
        }
        proof {
            assert forall|a: int, b: int| grid.in_bounds(a, b) implies #[trigger] grid.cell(a, b)
                == logo_drawn(
                old(grid).cell(a, b),
                a,
                b,
                lines@,
                ox as int,
                oy as int,
                fg,
                r + 1,
                0,
            ) by {
                if b - oy == r && logo_glyph_at(lines@, ox as int, oy as int, a, b) is Some {
                    assert(a - ox < k);
                }
            }
        }
        r = r + 1;
    }
    proof {
        assert forall|a: int, b: int| grid.in_bounds(a, b) implies #[trigger] grid.cell(a, b)
            == logo_cell(
            old(grid).cell(a, b),
            a,
            b,
            lines@,
            cols as int,
            rows as int,
            fg,
        ) by {
            if logo_glyph_at(lines@, ox as int, oy as int, a, b) is Some {
                assert(b - oy < r);
            }
        }
    }
}

/// The width of a logo is determined by its lines.
pub proof fn lemma_logo_width_unique(lines: Seq<Vec<char>>, w: int)
    requires
        is_logo_width(lines, w),
    ensures
        (choose|v: int| is_logo_width(lines, v)) == w,
{
    let v = choose|v: int| is_logo_width(lines, v);
    assert(is_logo_width(lines, v));
    if lines.len() > 0 {
        let r1 = choose|r: int| 0 <= r < lines.len() && #[trigger] lines[r]@.len() == w;
        let r2 = choose|r: int| 0 <= r < lines.len() && #[trigger] lines[r]@.len() == v;
        assert(lines[r1]@.len() <= v);
        assert(lines[r2]@.len() <= w);
    }
}

} // verus!
