//! One frame of the disco scene, drawn layer by layer.

use vstd::prelude::*;
use crate::grid::{Cell, Grid, Rgb, black, is_overlay_glyph};
use crate::stars::{StarMark, mark_ok, render_stars, star_bits, star_cell, star_own_cell, stars_cell};
use crate::flares::top_flares;
use crate::sparks::{Spark, sparks_cell};
use crate::ball::{disco_ball_cell, facet_color, facet_glyph, in_disc, render_disco_ball};
use crate::equalizer::{bar_count_spec, bar_segment, equalizer_cell, max_bar_height_spec, render_equalizer};
use crate::logo::{logo_cell, render_logo};

verus! {

/// Row of the mirror ball's centre.
pub const BALL_ROW: usize = 4;

/// Everything the frame shows, worked out from the scene's state.
pub struct Frame {
    /// The background stars, in order.
    pub stars: Vec<StarMark>,
    /// The mirror ball setting: the ball and its rays show when it is 1.
    pub ball_option: u32,
    /// The ball's light rays, in drawing order.
    pub rays: Vec<Spark>,
    /// How far the ball's facets have turned.
    pub ball_turn: i32,
    /// Height of each equalizer bar, left to right.
    pub bar_heights: Vec<usize>,
    /// The confetti, in drawing order.
    pub confetti: Vec<Spark>,
    /// The logo's lines and colour.
    pub logo_lines: Vec<Vec<char>>,
    pub logo_color: Rgb,
}

/// The frame's data fits a `cols` wide screen: the star colour tables are
/// complete, there is one bar height per bar, and the ball's turn leaves
/// room for its facets.
pub open spec fn frame_ok(f: Frame, cols: int) -> bool {
    &&& forall|i: int| 0 <= i < f.stars@.len() ==> mark_ok(#[trigger] f.stars@[i])
    &&& f.bar_heights@.len() == bar_count_spec(cols)
    &&& f.ball_option == 1 ==> i32::MIN + 7 <= f.ball_turn <= i32::MAX - 6
}

/// What the frame `f` leaves in the cell `(a, b)` that held `c`, on a
/// `cols` by `rows` grid: a black background, then the stars with the
/// flares of [`top_flares`], then (when enabled) the ball's rays and the
/// ball itself centred at column `cols / 2` of row [`BALL_ROW`], then the
/// equalizer, the confetti and the logo.
pub open spec fn frame_cell(c: Cell, a: int, b: int, f: Frame, cols: int, rows: int) -> Cell {
    let background = Cell { bg: black(), ..c };
    let starry = stars_cell(background, a, b, f.stars@, top_flares(star_bits(f.stars@)), cols, rows);
    let lit = disco_ball_cell(starry, a, b, f.ball_option, f.rays@, cols / 2, BALL_ROW as int, f.ball_turn as int);
    let bars = equalizer_cell(lit, a, b, f.bar_heights@, max_bar_height_spec(rows), rows);
    let party = sparks_cell(bars, a, b, f.confetti@);
    logo_cell(party, a, b, f.logo_lines@, cols, rows, f.logo_color)
}

/// Draws the frame `f` over the grid; an empty grid is left as it is.
/// Every cell of a drawn frame ends on a black background.
pub fn draw_disco(grid: &mut Grid, f: &Frame)
    requires
        old(grid).wf(),
        frame_ok(*f, old(grid).width() as int),
    ensures
        final(grid).wf(),
        final(grid).width() == old(grid).width(),
        final(grid).height() == old(grid).height(),
        forall|a: int, b: int|
            final(grid).in_bounds(a, b) ==> #[trigger] final(grid).cell(a, b) == frame_cell(
                old(grid).cell(a, b),
                a,
                b,
                *f,
                old(grid).width() as int,
                old(grid).height() as int,
            ),
        forall|a: int, b: int| final(grid).in_bounds(a, b) ==> (#[trigger] final(grid).cell(a, b)).bg == black(),
{
    let cols = grid.cols();
    let rows = grid.rows();
    if cols == 0 || rows == 0 {
        return;
    }
    let ghost g0 = *grid;
    grid.clear_background();
    let ghost g1 = *grid;
    render_stars(grid, &f.stars);
    let ghost g2 = *grid;
    render_disco_ball(grid, f.ball_option, &f.rays, cols / 2, BALL_ROW, f.ball_turn);
    let ghost g3 = *grid;
    render_equalizer(grid, &f.bar_heights);
    let ghost g4 = *grid;
    crate::sparks::paint_sparks(grid, &f.confetti);
    let ghost g5 = *grid;
    render_logo(grid, &f.logo_lines, f.logo_color);
    proof {
        assert forall|a: int, b: int| grid.in_bounds(a, b) implies #[trigger] grid.cell(a, b)
            == frame_cell(g0.cell(a, b), a, b, *f, cols as int, rows as int) by {
            assert(g1.cell(a, b) == Cell { bg: black(), ..g0.cell(a, b) });
            assert(g2.cell(a, b) == stars_cell(
                g1.cell(a, b),
                a,
                b,
                f.stars@,
                top_flares(star_bits(f.stars@)),
                cols as int,
                rows as int,
            ));
            assert(g3.cell(a, b) == disco_ball_cell(
                g2.cell(a, b),
                a,
                b,
                f.ball_option,
                f.rays@,
                (cols / 2) as int,
                BALL_ROW as int,
                f.ball_turn as int,
            ));
            assert(g4.cell(a, b) == equalizer_cell(
                g3.cell(a, b),
                a,
                b,
                f.bar_heights@,
                max_bar_height_spec(rows as int),
                rows as int,
            ));
            assert(g5.cell(a, b) == sparks_cell(g4.cell(a, b), a, b, f.confetti@));
        }
        assert forall|a: int, b: int| grid.in_bounds(a, b) implies (#[trigger] grid.cell(a, b)).bg == black() by {
            lemma_frame_background_black(g0.cell(a, b), a, b, *f, cols as int, rows as int);
        }
    }
}

/// Draws the frame `f` over the terminal cells `cells`, the first
/// `cols * rows` of which are the screen row by row: the screen gets the
/// frame (see [`frame_cell`]) and every cell after it a black background.
/// An empty screen leaves the cells as they were.
pub fn draw_disco_cells(cells: Vec<Cell>, cols: usize, rows: usize, f: &Frame) -> (out: Vec<Cell>)
    requires
        cols * rows <= cells@.len(),
        frame_ok(*f, cols as int),
    ensures
        out@.len() == cells@.len(),
        cols == 0 || rows == 0 ==> out@ == cells@,
        cols > 0 && rows > 0 ==> forall|i: int|
            0 <= i < cols * rows ==> #[trigger] out@[i] == frame_cell(
                cells@[i],
                i % cols as int,
                i / cols as int,
                *f,
                cols as int,
                rows as int,
            ),
        cols > 0 && rows > 0 ==> forall|i: int|
            cols * rows <= i < cells@.len() ==> #[trigger] out@[i] == (Cell { bg: black(), ..cells@[i] }),
        cols > 0 && rows > 0 ==> forall|i: int| 0 <= i < cells@.len() ==> (#[trigger] out@[i]).bg == black(),
{
    if cols == 0 || rows == 0 {
        return cells;
    }
    assert(cells@.len() == cells.len());
    let n: usize = cols * rows;
    let mut head = cells;
    let mut tail = head.split_off(n);
    let ghost head0 = head@;
    let ghost tail0 = tail@;
    let mut grid = match Grid::from_cells(cols, rows, head) {
        Some(g) => g,
        None => {
            proof {
                assert(false);
            }
            return Vec::new();
        },
    };
    proof {
        grid.lemma_cells_view();
    }
    let ghost before = grid;
    draw_disco(&mut grid, f);
    proof {
        grid.lemma_cells_view();
    }
    let mut out = grid.into_cells();
    let mut k: usize = 0;
    while k < tail.len()
        invariant
            tail@.len() == tail0.len(),
            k <= tail@.len(),
            forall|j: int|
                0 <= j < tail@.len() ==> #[trigger] tail@[j] == if j < k {
                    Cell { bg: black(), ..tail0[j] }
                } else {
                    tail0[j]
                },
        decreases tail@.len() - k,
    {
        let c = tail[k];
        tail.set(k, Cell { bg: (0, 0, 0), ..c });
        k = k + 1;
    }
    let ghost drawn = out@;
    let ghost blackened = tail@;
    out.append(&mut tail);
    proof {
        assert forall|i: int| 0 <= i < cols * rows implies #[trigger] out@[i] == frame_cell(
            cells@[i],
            i % cols as int,
            i / cols as int,
            *f,
            cols as int,
            rows as int,
        ) by {
            lemma_split_index(i, cols as int, rows as int);
            let x = i % cols as int;
            let y = i / cols as int;
            assert(before.in_bounds(x, y));
            assert(before.cell(x, y) == before.cells_view()[y * cols + x]);
            assert(before.cells_view() == head0);
            assert(head0[i] == cells@[i]);
            assert(before.cell(x, y) == cells@[i]);
            assert(grid.in_bounds(x, y));
            assert(grid.cell(x, y) == drawn[y * cols + x]);
            assert(out@[i] == drawn[i]);
        }
        assert forall|i: int| 0 <= i < cells@.len() implies (#[trigger] out@[i]).bg == black() by {
            if i < cols * rows {
                lemma_split_index(i, cols as int, rows as int);
                let x = i % cols as int;
                let y = i / cols as int;
                assert(grid.in_bounds(x, y));
                assert(grid.cell(x, y) == drawn[y * cols + x]);
                assert(out@[i] == drawn[i]);
            } else {
                assert(drawn.len() == cols * rows);
                assert(out@[i] == blackened[i - cols * rows]);
            }
        }
    }
    out
}

/// Position `i` of a row-by-row `cols` by `rows` screen is column
/// `i % cols` of row `i / cols`.
proof fn lemma_split_index(i: int, cols: int, rows: int)
    requires
        cols > 0,
        0 <= i < cols * rows,
    ensures
        0 <= i % cols < cols,
        0 <= i / cols < rows,
        (i / cols) * cols + i % cols == i,
{
    vstd::arithmetic::div_mod::lemma_fundamental_div_mod(i, cols);
    assert(0 <= i / cols < rows) by (nonlinear_arith)
        requires
            cols > 0,
            0 <= i < cols * rows,
            i == cols * (i / cols) + i % cols,
            0 <= i % cols < cols,
    ;
    assert((i / cols) * cols == cols * (i / cols)) by (nonlinear_arith);
}

/// Painting sparks never changes a background.
proof fn lemma_sparks_keep_background(c: Cell, a: int, b: int, sparks: Seq<Spark>)
    ensures
        sparks_cell(c, a, b, sparks).bg == c.bg,
    decreases sparks.len(),
{
    if sparks.len() > 0 {
        lemma_sparks_keep_background(c, a, b, sparks.drop_last());
    }
}

/// Stars keep a black background black: their own cells are drawn on
/// black.
proof fn lemma_stars_keep_black(c: Cell, a: int, b: int, stars: Seq<StarMark>, flares: Seq<usize>, cols: int, rows: int)
    requires
        c.bg == black(),
    ensures
        stars_cell(c, a, b, stars, flares, cols, rows).bg == black(),
    decreases stars.len(),
{
    if stars.len() > 0 {
        let i = stars.len() - 1;
        lemma_stars_keep_black(c, a, b, stars.drop_last(), flares, cols, rows);
        assert(star_own_cell(stars[i]).bg == black());
        let prev = stars_cell(c, a, b, stars.drop_last(), flares, cols, rows);
        assert(star_cell(prev, a, b, stars[i], flares.contains(i as usize), cols, rows).bg == black());
    }
}

/// Every cell of a frame has a black background: the frame starts by
/// blackening the background, and every later layer changes glyphs and
/// colours only.
pub proof fn lemma_frame_background_black(c: Cell, a: int, b: int, f: Frame, cols: int, rows: int)
    ensures
        frame_cell(c, a, b, f, cols, rows).bg == black(),
{
    let background = Cell { bg: black(), ..c };
    let starry = stars_cell(background, a, b, f.stars@, top_flares(star_bits(f.stars@)), cols, rows);
    lemma_stars_keep_black(background, a, b, f.stars@, top_flares(star_bits(f.stars@)), cols, rows);
    lemma_sparks_keep_background(starry, a, b, f.rays@);
    let lit = disco_ball_cell(starry, a, b, f.ball_option, f.rays@, cols / 2, BALL_ROW as int, f.ball_turn as int);
    let bars = equalizer_cell(lit, a, b, f.bar_heights@, max_bar_height_spec(rows), rows);
    lemma_sparks_keep_background(bars, a, b, f.confetti@);
}

/// A cell that painting `sparks` changes lies under one of them, showed an
/// overlay glyph before, and now shows the glyph of one of them.
proof fn lemma_sparks_change(c: Cell, a: int, b: int, sparks: Seq<Spark>)
    ensures
        sparks_cell(c, a, b, sparks) != c ==> {
            &&& exists|k: int| 0 <= k < sparks.len() && #[trigger] sparks[k].x == a && sparks[k].y == b
            &&& is_overlay_glyph(c.ch)
            &&& exists|k: int| 0 <= k < sparks.len() && sparks_cell(c, a, b, sparks).ch == #[trigger] sparks[k].ch
        },
    decreases sparks.len(),
{
    if sparks.len() > 0 {
        let init = sparks.drop_last();
        let last = sparks.len() - 1;
        lemma_sparks_change(c, a, b, init);
        let prev = sparks_cell(c, a, b, init);
        if prev != c {
            let k1 = choose|k: int| 0 <= k < init.len() && #[trigger] init[k].x == a && init[k].y == b;
            assert(sparks[k1] == init[k1]);
            if sparks_cell(c, a, b, sparks) == prev {
                let k2 = choose|k: int| 0 <= k < init.len() && prev.ch == #[trigger] init[k].ch;
                assert(sparks[k2] == init[k2]);
            } else {
                assert(sparks_cell(c, a, b, sparks).ch == sparks[last].ch);
            }
        } else if sparks_cell(c, a, b, sparks) != c {
            assert(sparks_cell(c, a, b, sparks).ch == sparks[last].ch);
            assert(sparks[last].x == a && sparks[last].y == b);
        }
    }
}

/// Confetti changes only the cells it lands on, and only where they showed
/// an overlay glyph: a frame `f` and the same frame `g` without confetti
/// differ at most in cells under a piece of `f`'s confetti, where `g` shows
/// an overlay glyph and `f` the glyph of one of its pieces.
pub proof fn lemma_confetti_changes_only_its_cells(c: Cell, a: int, b: int, f: Frame, g: Frame, cols: int, rows: int)
    requires
        g.stars@ == f.stars@,
        g.ball_option == f.ball_option,
        g.rays@ == f.rays@,
        g.ball_turn == f.ball_turn,
        g.bar_heights@ == f.bar_heights@,
        g.confetti@.len() == 0,
        g.logo_lines@ == f.logo_lines@,
        g.logo_color == f.logo_color,
    ensures
        frame_cell(c, a, b, f, cols, rows) != frame_cell(c, a, b, g, cols, rows) ==> {
            &&& exists|k: int|
                0 <= k < f.confetti@.len() && #[trigger] f.confetti@[k].x == a && f.confetti@[k].y == b
            &&& is_overlay_glyph(frame_cell(c, a, b, g, cols, rows).ch)
            &&& exists|k: int|
                0 <= k < f.confetti@.len() && frame_cell(c, a, b, f, cols, rows).ch
                    == #[trigger] f.confetti@[k].ch
        },
{
    let background = Cell { bg: black(), ..c };
    let starry = stars_cell(background, a, b, f.stars@, top_flares(star_bits(f.stars@)), cols, rows);
    let lit = disco_ball_cell(starry, a, b, f.ball_option, f.rays@, cols / 2, BALL_ROW as int, f.ball_turn as int);
    let bars = equalizer_cell(lit, a, b, f.bar_heights@, max_bar_height_spec(rows), rows);
    let party = sparks_cell(bars, a, b, f.confetti@);
    assert(sparks_cell(bars, a, b, g.confetti@) == bars);
    assert(frame_cell(c, a, b, g, cols, rows) == logo_cell(bars, a, b, f.logo_lines@, cols, rows, f.logo_color));
    lemma_sparks_keep_background(bars, a, b, f.confetti@);
    lemma_sparks_change(bars, a, b, f.confetti@);
}

/// The mirror ball hides whatever lies under it: with the ball shown, a
/// cell on the ball's ellipse around column `cols / 2` of row
/// [`BALL_ROW`] shows the ball's facet, in the facet's colour on black,
/// whatever stars, rays or confetti fall on it, unless an equalizer bar or
/// the logo reaches that cell.
pub proof fn lemma_ball_covers_stars(c: Cell, a: int, b: int, f: Frame, cols: int, rows: int)
    requires
        f.ball_option == 1,
        in_disc(a - cols / 2, b - BALL_ROW),
        !(0 <= a && a % 3 < 2 && a / 3 < f.bar_heights@.len() && bar_segment(
            b,
            f.bar_heights@[a / 3] as int,
            rows,
        ) is Some),
        forall|x: Cell| #[trigger] logo_cell(x, a, b, f.logo_lines@, cols, rows, f.logo_color) == x,
    ensures
        frame_cell(c, a, b, f, cols, rows).ch == facet_glyph(a - cols / 2, b - BALL_ROW, f.ball_turn as int),
        frame_cell(c, a, b, f, cols, rows).fg == facet_color(a - cols / 2, b - BALL_ROW),
        frame_cell(c, a, b, f, cols, rows).bg == black(),
{
    let background = Cell { bg: black(), ..c };
    let starry = stars_cell(background, a, b, f.stars@, top_flares(star_bits(f.stars@)), cols, rows);
    let lit = disco_ball_cell(starry, a, b, f.ball_option, f.rays@, cols / 2, BALL_ROW as int, f.ball_turn as int);
    let bars = equalizer_cell(lit, a, b, f.bar_heights@, max_bar_height_spec(rows), rows);
    assert(bars == lit);
    assert(lit.ch == facet_glyph(a - cols / 2, b - BALL_ROW, f.ball_turn as int));
    assert(!is_overlay_glyph(lit.ch));
    lemma_sparks_change(bars, a, b, f.confetti@);
    let party = sparks_cell(bars, a, b, f.confetti@);
    assert(party == bars);
    assert(logo_cell(party, a, b, f.logo_lines@, cols, rows, f.logo_color) == party);
    lemma_frame_background_black(c, a, b, f, cols, rows);
}

} // verus!
