//! The background stars and their lens flares.

use vstd::prelude::*;
use crate::grid::{Cell, Grid, Rgb, black};
use crate::flares::{paint_streak, select_flares, streak_cell, top_flares};

verus! {

/// Cells a horizontal flare streak reaches plus one, and its dimming per
/// cell.
pub const H_STREAK_LEN: usize = 12;
pub const H_STREAK_STEP: usize = 7;

/// Cells a vertical flare streak reaches plus one, and its dimming per cell.
pub const V_STREAK_LEN: usize = 4;
pub const V_STREAK_STEP: usize = 17;

/// A star as it is to be drawn this frame.
pub struct StarMark {
    /// Column and row of the star; it is drawn only when on the grid.
    pub x: usize,
    pub y: usize,
    /// Glyph, colour and weight of the star's own cell, which is drawn on
    /// black.
    pub ch: char,
    pub fg: Rgb,
    pub bold: bool,
    /// Bit pattern of the star's `f32` excitation, which decides its flare.
    pub excitation_bits: u32,
    /// Starting brightness of the horizontal and vertical flare streaks.
    pub flare_alpha_h: u8,
    pub flare_alpha_v: u8,
    /// Colour of the flare streaks at each distance from the star.
    pub flare_colors_h: Vec<Rgb>,
    pub flare_colors_v: Vec<Rgb>,
}

/// The cell star `s` shows.
pub open spec fn star_own_cell(s: StarMark) -> Cell {
    Cell { ch: s.ch, fg: s.fg, bg: black(), bold: s.bold }
}

/// The excitation bit patterns of `stars`.
pub open spec fn star_bits(stars: Seq<StarMark>) -> Seq<u32> {
    Seq::new(stars.len(), |i: int| stars[i].excitation_bits)
}

/// The flare colour tables are long enough for the streaks.
pub open spec fn mark_ok(s: StarMark) -> bool {
    s.flare_colors_h@.len() >= H_STREAK_LEN && s.flare_colors_v@.len() >= V_STREAK_LEN
}

/// What star `s` leaves in the cell `(a, b)` that held `c`, on a `cols` by
/// `rows` grid: its own cell, then, when it has a flare, the horizontal and
/// then the vertical streak.
pub open spec fn star_cell(c: Cell, a: int, b: int, s: StarMark, flared: bool, cols: int, rows: int) -> Cell {
    if s.x < cols && s.y < rows {
        let own = if a == s.x && b == s.y {
            star_own_cell(s)
        } else {
            c
        };
        if flared {
            let h = streak_cell(
                own,
                a,
                b,
                s.x as int,
                s.y as int,
                true,
                s.flare_alpha_h,
                H_STREAK_LEN as int,
                H_STREAK_STEP as int,
                s.flare_colors_h@,
            );
            streak_cell(
                h,
                a,
                b,
                s.x as int,
                s.y as int,
                false,
                s.flare_alpha_v,
                V_STREAK_LEN as int,
                V_STREAK_STEP as int,
                s.flare_colors_v@,
            )
        } else {
            own
        }
    } else {
        c
    }
}

/// What drawing `stars` in order leaves in the cell `(a, b)` that held `c`;
/// star `i` has a flare when `flares` lists it.
pub open spec fn stars_cell(c: Cell, a: int, b: int, stars: Seq<StarMark>, flares: Seq<usize>, cols: int, rows: int) -> Cell
    decreases stars.len(),
{
    if stars.len() == 0 {
        c
    } else {
        let i = stars.len() - 1;
        star_cell(
            stars_cell(c, a, b, stars.drop_last(), flares, cols, rows),
            a,
            b,
            stars[i],
            flares.contains(i as usize),
            cols,
            rows,
        )
    }
}

fn contains_index(v: &Vec<usize>, i: usize) -> (b: bool)
    ensures
        b == v@.contains(i),
{
    let mut k: usize = 0;
    while k < v.len()
        invariant
            k <= v.len(),
            forall|m: int| 0 <= m < k ==> v@[m] != i,
        decreases v.len() - k,
    {
        if v[k] == i {
            return true;
        }
        k = k + 1;
    }
    false
}

/// Draws `stars` in order: each star on the grid gets its own cell on a
/// black background, and the stars of [`top_flares`] (the most excited
/// ones, see [`select_flares`]) get their lens flare streaks (see
/// [`crate::flares::paint_streak`]). Stars off the grid draw nothing.
pub fn render_stars(grid: &mut Grid, stars: &Vec<StarMark>)
    requires
        old(grid).wf(),
        forall|i: int| 0 <= i < stars.len() ==> mark_ok(#[trigger] stars@[i]),
    ensures
        final(grid).wf(),
        final(grid).width() == old(grid).width(),
        final(grid).height() == old(grid).height(),
        forall|a: int, b: int|
            final(grid).in_bounds(a, b) ==> #[trigger] final(grid).cell(a, b) == stars_cell(
                old(grid).cell(a, b),
                a,
                b,
                stars@,
                top_flares(star_bits(stars@)),
                old(grid).width() as int,
                old(grid).height() as int,
            ),
{
    let mut bits: Vec<u32> = Vec::new();
    let mut k: usize = 0;
    while k < stars.len()
        invariant
            k <= stars.len(),
            bits@ == star_bits(stars@).subrange(0, k as int),
        decreases stars.len() - k,
    {
        bits.push(stars[k].excitation_bits);
        k = k + 1;
    }
    assert(bits@ == star_bits(stars@));
    let flares = select_flares(&bits);
    let cols = grid.cols();
    let rows = grid.rows();
    let mut i: usize = 0;
    while i < stars.len()
        invariant
            grid.wf(),
            grid.width() == old(grid).width(),
            grid.height() == old(grid).height(),
            cols == grid.width(),
            rows == grid.height(),
            i <= stars.len(),
            flares@ == top_flares(star_bits(stars@)),
            forall|k: int| 0 <= k < stars.len() ==> mark_ok(#[trigger] stars@[k]),
            forall|a: int, b: int|
                grid.in_bounds(a, b) ==> #[trigger] grid.cell(a, b) == stars_cell(
                    old(grid).cell(a, b),
                    a,
                    b,
                    stars@.subrange(0, i as int),
                    flares@,
                    cols as int,
                    rows as int,
                ),
        decreases stars.len() - i,
    {
        let s = &stars[i];
        let ghost before = *grid;
        let flared = contains_index(&flares, i);
        if s.x < cols && s.y < rows {
            grid.put(s.x, s.y, Cell { ch: s.ch, fg: s.fg, bg: (0, 0, 0), bold: s.bold });
            if flared {
                assert(mark_ok(stars@[i as int]));
                paint_streak(grid, s.x, s.y, true, s.flare_alpha_h, H_STREAK_LEN, H_STREAK_STEP, &s.flare_colors_h);
                paint_streak(grid, s.x, s.y, false, s.flare_alpha_v, V_STREAK_LEN, V_STREAK_STEP, &s.flare_colors_v);
            }
        }
        proof {
            assert forall|a: int, b: int| grid.in_bounds(a, b) implies #[trigger] grid.cell(a, b)
                == stars_cell(
                old(grid).cell(a, b),
                a,
                b,
                stars@.subrange(0, i + 1),
                flares@,
                cols as int,
                rows as int,
            ) by {
                assert(stars@.subrange(0, i + 1).drop_last() =~= stars@.subrange(0, i as int));
                assert(before.cell(a, b) == stars_cell(
                    old(grid).cell(a, b),
                    a,
                    b,
                    stars@.subrange(0, i as int),
                    flares@,
                    cols as int,
                    rows as int,
                ));
            }
        }
        i = i + 1;
    }
    proof {
        assert(stars@.subrange(0, stars@.len() as int) =~= stars@);
    }
}

} // verus!
