//! The bouncing equalizer bars along the bottom of the screen.

use vstd::prelude::*;
use crate::grid::{Cell, Grid, Rgb, with_glyph};

verus! {

/// Columns from one bar to the next.
pub const BAR_SPACING: usize = 3;

/// Columns each bar is wide.
pub const BAR_WIDTH: usize = 2;

/// Tallest bar: a fifth of the rows, kept between 4 and 10.
pub open spec fn max_bar_height_spec(rows: int) -> int {
    let h = rows / 5;
    if h < 4 {
        4
    } else if h > 10 {
        10
    } else {
        h
    }
}

/// The tallest bar is a fifth of the rows (rounded down) wherever that lies
/// between 4 and 10, so for every screen of 20 to 54 rows; shorter screens
/// get 4 and taller ones 10, and a taller screen never gets a shorter bar.
pub proof fn lemma_max_bar_height_fifth(rows: int, more: int)
    requires
        0 <= rows <= more,
    ensures
        ({
            let h = max_bar_height_spec(rows);
            &&& 4 <= h <= 10
            &&& 20 <= rows < 55 ==> 5 * h <= rows < 5 * h + 5
            &&& rows < 20 ==> h == 4
            &&& rows >= 50 ==> h == 10
        }),
        max_bar_height_spec(rows) <= max_bar_height_spec(more),
{
}

/// Tallest bar for a screen of `rows` rows.
pub fn max_bar_height(rows: usize) -> (h: usize)
    ensures
        h == max_bar_height_spec(rows as int),
        4 <= h <= 10,
{
    let h: usize = rows / 5;
    if h < 4 {
        4
    } else if h > 10 {
        10
    } else {
        h
    }
}

/// Number of bars on a screen of `cols` columns: one every
/// [`BAR_SPACING`] columns, starting at column 0.
pub open spec fn bar_count_spec(cols: int) -> int {
    (cols + 2) / 3
}

/// Number of bars on a screen of `cols` columns.
pub fn bar_count(cols: usize) -> (n: usize)
    ensures
        n == bar_count_spec(cols as int),
        3 * n >= cols,
        n > 0 ==> 3 * (n - 1) < cols,
{
    cols / 3 + if cols % 3 == 0 { 0 } else { 1 }
}

/// Colour of the bar segment `dy` rows above the bottom in a bar whose
/// tallest possible height is `max_h`: green-cyan in the lowest 40%,
/// yellow-orange up to 75%, red-pink above.
pub open spec fn bar_color_spec(dy: int, max_h: int) -> Rgb {
    if 5 * dy < 2 * max_h {
        (0u8, 255u8, 128u8)
    } else if 4 * dy < 3 * max_h {
        (255u8, 200u8, 0u8)
    } else {
        (255u8, 0u8, 100u8)
    }
}

/// Colour of the bar segment `dy` rows above the bottom.
pub fn bar_color(dy: usize, max_h: usize) -> (c: Rgb)
    requires
        max_h <= 10,
    ensures
        c == bar_color_spec(dy as int, max_h as int),
{
    if dy < (2 * max_h + 4) / 5 {
        (0, 255, 128)
    } else if dy < (3 * max_h + 3) / 4 {
        (255, 200, 0)
    } else {
        (255, 0, 100)
    }
}

/// The segment of a bar of height `h` last drawn in row `y` of a screen of
/// `rows` rows. Segment `dy` goes to row `rows - 1 - dy`, and to the top
/// row once the bar is taller than the screen.
pub open spec fn bar_segment(y: int, h: int, rows: int) -> Option<int> {
    if rows <= 0 || y < 0 || y >= rows {
        None
    } else if y > 0 {
        if rows - 1 - y < h {
            Some(rows - 1 - y)
        } else {
            None
        }
    } else if h >= rows {
        Some(h - 1)
    } else {
        None
    }
}

/// What the bars of heights `heights` leave in the cell `(a, b)` that held
/// `c`, on a screen of `rows` rows whose tallest bar may be `max_h`.
pub open spec fn equalizer_cell(c: Cell, a: int, b: int, heights: Seq<usize>, max_h: int, rows: int) -> Cell {
    let i = a / 3;
    if 0 <= a && a % 3 < 2 && i < heights.len() {
        match bar_segment(b, heights[i] as int, rows) {
            Some(dy) => with_glyph(c, '█', bar_color_spec(dy, max_h)),
            None => c,
        }
    } else {
        c
    }
}

/// Bars before `i` drawn whole, bar `i` up to segment `dy`.
spec fn bars_drawn(c: Cell, a: int, b: int, heights: Seq<usize>, max_h: int, rows: int, i: int, dy: int) -> Cell {
    let j = a / 3;
    let h = if j < i {
        heights[j] as int
    } else if j == i {
        dy
    } else {
        0
    };
    if 0 <= a && a % 3 < 2 && j < heights.len() {
        match bar_segment(b, h, rows) {
            Some(s) => with_glyph(c, '█', bar_color_spec(s, max_h)),
            None => c,
        }
    } else {
        c
    }
}

/// Draws the equalizer: bar `i` stands in columns `3 i` and `3 i + 1`,
/// `heights[i]` segments tall, growing up from the bottom row, each segment
/// coloured by its height relative to the tallest bar the screen allows
/// (see [`max_bar_height_spec`] and [`bar_color_spec`]).
/// Every other cell is left as it was.
pub fn render_equalizer(grid: &mut Grid, heights: &Vec<usize>)
    requires
        old(grid).wf(),
        heights.len() == bar_count_spec(old(grid).width() as int),
    ensures
        final(grid).wf(),
        final(grid).width() == old(grid).width(),
        final(grid).height() == old(grid).height(),
        forall|a: int, b: int|
            final(grid).in_bounds(a, b) ==> #[trigger] final(grid).cell(a, b) == equalizer_cell(
                old(grid).cell(a, b),
                a,
                b,
                heights@,
                max_bar_height_spec(old(grid).height() as int),
                old(grid).height() as int,
            ),
{
    let cols = grid.cols();
    let rows = grid.rows();
    let max_h = max_bar_height(rows);
    let n: usize = bar_count(cols);
    let mut i: usize = 0;
    while i < n
        invariant
            grid.wf(),
            grid.width() == old(grid).width(),
            grid.height() == old(grid).height(),
            cols == grid.width(),
            rows == grid.height(),
            n == heights.len(),
            n == bar_count_spec(cols as int),
            n > 0 ==> 3 * (n - 1) < cols,
            max_h <= 10,
            max_h == max_bar_height_spec(rows as int),
            i <= n,
            forall|a: int, b: int|
                grid.in_bounds(a, b) ==> #[trigger] grid.cell(a, b) == bars_drawn(
                    old(grid).cell(a, b),
                    a,
                    b,
                    heights@,
                    max_h as int,
                    rows as int,
                    i as int,
                    0,
                ),
        decreases n - i,
    {
        let x: usize = 3 * i;
        let h: usize = heights[i];
        let mut dy: usize = 0;
        while dy < h
            invariant
                grid.wf(),
                grid.width() == old(grid).width(),
                grid.height() == old(grid).height(),
                cols == grid.width(),
                rows == grid.height(),
                n == heights.len(),
                i < n,
                x == 3 * i,
                x < cols,
                h == heights@[i as int],
                max_h <= 10,
                max_h == max_bar_height_spec(rows as int),
                dy <= h,
                forall|a: int, b: int|
                    grid.in_bounds(a, b) ==> #[trigger] grid.cell(a, b) == bars_drawn(
                        old(grid).cell(a, b),
                        a,
                        b,
                        heights@,
                        max_h as int,
                        rows as int,
                        i as int,
                        dy as int,
                    ),
            decreases h - dy,
        {
            let y: usize = rows.saturating_sub(1).saturating_sub(dy);
            if y < rows {
                let color = bar_color(dy, max_h);
                let ghost before = *grid;
                grid.set_glyph(x, y, '█', color);
                grid.set_glyph(x + 1, y, '█', color);
                proof {
                    assert forall|a: int, b: int| grid.in_bounds(a, b) implies #[trigger] grid.cell(a, b)
                        == bars_drawn(
                        old(grid).cell(a, b),
                        a,
                        b,
                        heights@,
                        max_h as int,
                        rows as int,
                        i as int,
                        dy + 1,
                    ) by {
                        assert(before.cell(a, b) == bars_drawn(
                            old(grid).cell(a, b),
                            a,
                            b,
                            heights@,
                            max_h as int,
                            rows as int,
                            i as int,
                            dy as int,
                        ));
                    }
                }
            }
            dy = dy + 1;
        }
        i = i + 1;
    }
}

} // verus!
