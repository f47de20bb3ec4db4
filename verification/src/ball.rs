//! The mirror ball hanging above the dance floor.

use vstd::prelude::*;
use crate::grid::{Cell, Grid, Rgb, with_glyph};
use crate::sparks::{Spark, paint_sparks, sparks_cell};

verus! {

/// Whether the mirror ball (and its light rays) is shown for the ball option.
pub fn ball_enabled(option: u32) -> (b: bool)
    ensures
        b == (option == 1),
{
    option == 1
}

/// Vertical radius of the ball, in rows.
pub const BALL_RADIUS_Y: i64 = 3;

/// Half width of the ball's row `dy` rows from its centre: the ellipse of
/// radii 5 and 3, `5 * sqrt(1 - (dy / 3)^2)` rounded to the nearest column.
pub open spec fn disc_half_width(dy: int) -> int {
    if -1 <= dy <= 1 {
        5
    } else if dy == 2 || dy == -2 {
        4
    } else {
        0
    }
}

/// Whether the offset `(dx, dy)` from the ball's centre lies on the ball.
pub open spec fn in_disc(dx: int, dy: int) -> bool {
    -BALL_RADIUS_Y <= dy <= BALL_RADIUS_Y && -disc_half_width(dy) <= dx <= disc_half_width(dy)
}

/// The absolute value of `x`.
pub open spec fn abs_int(x: int) -> int {
    if x < 0 {
        -x
    } else {
        x
    }
}

/// Glyph of the facet at offset `(dx, dy)` when the ball has turned by `rot`:
/// the four shades in turn along the diagonals.
pub open spec fn facet_glyph(dx: int, dy: int, rot: int) -> char {
    let p = abs_int(dx + dy + rot) % 4;
    if p == 0 {
        '░'
    } else if p == 1 {
        '▒'
    } else if p == 2 {
        '▓'
    } else {
        '█'
    }
}

/// Colour of the facet at offset `(dx, dy)`: white within a distance of
/// `sqrt(3)` of the centre, bright silver within `3`, grey beyond, where the
/// distance stretches rows by `1.8` (`dx^2 + (1.8 dy)^2`, scaled by 100).
pub open spec fn facet_color(dx: int, dy: int) -> Rgb {
    let d = 100 * dx * dx + 324 * dy * dy;
    if d < 300 {
        (255u8, 255u8, 255u8)
    } else if d < 900 {
        (200u8, 220u8, 255u8)
    } else {
        (100u8, 110u8, 130u8)
    }
}

/// Colour of the string the ball hangs from.
pub open spec fn string_color() -> Rgb {
    (100u8, 100u8, 100u8)
}

/// What the ball centred at `(cx, cy)` and turned by `rot` leaves in the
/// cell `(a, b)` that held `c`: a facet on the ball, the string `│` above
/// it in column `cx` from the top row down to the row above the ball's top,
/// and `c` elsewhere.
pub open spec fn ball_cell(c: Cell, a: int, b: int, cx: int, cy: int, rot: int) -> Cell {
    if in_disc(a - cx, b - cy) {
        with_glyph(c, facet_glyph(a - cx, b - cy, rot), facet_color(a - cx, b - cy))
    } else if a == cx && 0 <= b < cy - BALL_RADIUS_Y {
        with_glyph(c, '│', string_color())
    } else {
        c
    }
}

/// What the ball layer leaves in the cell `(a, b)` that held `c`: when the
/// ball option is 1, the light rays `rays` (see [`sparks_cell`]) and then
/// the ball centred at `(cx, cy)` and turned by `rot` with its string;
/// otherwise `c`.
pub open spec fn disco_ball_cell(
    c: Cell,
    a: int,
    b: int,
    option: u32,
    rays: Seq<Spark>,
    cx: int,
    cy: int,
    rot: int,
) -> Cell {
    if option == 1 {
        ball_cell(sparks_cell(c, a, b, rays), a, b, cx, cy, rot)
    } else {
        c
    }
}

/// `c + d` when it is a valid index.
fn offset(c: usize, d: i64) -> (r: Option<usize>)
    ensures
        r is Some <==> 0 <= c + d <= usize::MAX,
        r matches Some(x) ==> x == c + d,
{
    if d >= 0 {
        let du: u64 = d as u64;
        if (du as u128) <= (usize::MAX - c) as u128 {
            Some(c + du as usize)
        } else {
            None
        }
    } else {
        let du: u128 = (-(d as i128)) as u128;
        if du <= c as u128 {
            Some(c - du as usize)
        } else {
            None
        }
    }
}

fn half_width(dy: i64) -> (w: i64)
    ensures
        w == disc_half_width(dy as int),
{
    if -1 <= dy && dy <= 1 {
        5
    } else if dy == 2 || dy == -2 {
        4
    } else {
        0
    }
}

fn facet_glyph_exec(dx: i64, dy: i64, rot: i32) -> (ch: char)
    requires
        -10 <= dx <= 10,
        -10 <= dy <= 10,
    ensures
        ch == facet_glyph(dx as int, dy as int, rot as int),
{
    let s: i64 = dx + dy + rot as i64;
    let a: i64 = if s < 0 { -s } else { s };
    let p: i64 = a % 4;
    if p == 0 {
        '░'
    } else if p == 1 {
        '▒'
    } else if p == 2 {
        '▓'
    } else {
        '█'
    }
}

fn facet_color_exec(dx: i64, dy: i64) -> (c: Rgb)
    requires
        -10 <= dx <= 10,
        -10 <= dy <= 10,
    ensures
        c == facet_color(dx as int, dy as int),
{
    assert(0 <= dx * dx <= 100 && 0 <= dy * dy <= 100) by (nonlinear_arith)
        requires
            -10 <= dx <= 10,
            -10 <= dy <= 10,
    ;
    let d: i64 = 100 * (dx * dx) + 324 * (dy * dy);
    assert(d == 100 * dx * dx + 324 * dy * dy) by (nonlinear_arith)
        requires
            d == 100 * (dx * dx) + 324 * (dy * dy),
    ;
    if d < 300 {
        (255, 255, 255)
    } else if d < 900 {
        (200, 220, 255)
    } else {
        (100, 110, 130)
    }
}

/// Cells of ball rows above `dy`, and of row `dy` left of `dx`, are drawn.
spec fn disc_drawn(c: Cell, a: int, b: int, cx: int, cy: int, rot: int, dy: int, dx: int) -> Cell {
    let ox = a - cx;
    let oy = b - cy;
    if in_disc(ox, oy) && (oy < dy || (oy == dy && ox < dx)) {
        with_glyph(c, facet_glyph(ox, oy, rot), facet_color(ox, oy))
    } else {
        c
    }
}

/// When the ball option is 1, draws the light rays `rays` (each only over
/// an overlay glyph), then the mirror ball centred at `(cx, cy)` and turned
/// by `rot`, and the string it hangs from; every other cell, and with any
/// other option the whole grid, is left as it was.
pub fn render_disco_ball(grid: &mut Grid, option: u32, rays: &Vec<Spark>, cx: usize, cy: usize, rot: i32)
    requires
        old(grid).wf(),
        option == 1 ==> cx < old(grid).width(),
        option == 1 ==> cy <= old(grid).height() + BALL_RADIUS_Y,
        option == 1 ==> i32::MIN + 7 <= rot <= i32::MAX - 6,
    ensures
        final(grid).wf(),
        final(grid).width() == old(grid).width(),
        final(grid).height() == old(grid).height(),
        forall|a: int, b: int|
            final(grid).in_bounds(a, b) ==> #[trigger] final(grid).cell(a, b) == disco_ball_cell(
                old(grid).cell(a, b),
                a,
                b,
                option,
                rays@,
                cx as int,
                cy as int,
                rot as int,
            ),
{
    if !ball_enabled(option) {
        return;
    }
    let ghost g0 = *grid;
    paint_sparks(grid, rays);
    let ghost g1 = *grid;
    render_ball_body(grid, cx, cy, rot);
    proof {
        assert forall|a: int, b: int| grid.in_bounds(a, b) implies #[trigger] grid.cell(a, b)
            == disco_ball_cell(g0.cell(a, b), a, b, option, rays@, cx as int, cy as int, rot as int) by {
            assert(g1.cell(a, b) == sparks_cell(g0.cell(a, b), a, b, rays@));
        }
    }
}

/// Draws the mirror ball centred at `(cx, cy)`, turned by `rot`, and the
/// string it hangs from; every other cell is left as it was.
fn render_ball_body(grid: &mut Grid, cx: usize, cy: usize, rot: i32)
    requires
        old(grid).wf(),
        cx < old(grid).width(),
        cy <= old(grid).height() + BALL_RADIUS_Y,
        i32::MIN + 7 <= rot <= i32::MAX - 6,
    ensures
        final(grid).wf(),
        final(grid).width() == old(grid).width(),
        final(grid).height() == old(grid).height(),
        forall|a: int, b: int|
            final(grid).in_bounds(a, b) ==> #[trigger] final(grid).cell(a, b) == ball_cell(
                old(grid).cell(a, b),
                a,
                b,
                cx as int,
                cy as int,
                rot as int,
            ),
{
    let mut dy: i64 = -BALL_RADIUS_Y;
    while dy <= BALL_RADIUS_Y
        invariant
            grid.wf(),
            grid.width() == old(grid).width(),
            grid.height() == old(grid).height(),
            -BALL_RADIUS_Y <= dy <= BALL_RADIUS_Y + 1,
            forall|a: int, b: int|
                grid.in_bounds(a, b) ==> #[trigger] grid.cell(a, b) == disc_drawn(
                    old(grid).cell(a, b),
                    a,
                    b,
                    cx as int,
                    cy as int,
                    rot as int,
                    dy as int,
                    i64::MIN as int,
                ),
        decreases BALL_RADIUS_Y + 1 - dy,
    {
        let w: i64 = half_width(dy);
        let mut dx: i64 = -w;
        while dx <= w
            invariant
                grid.wf(),
                grid.width() == old(grid).width(),
                grid.height() == old(grid).height(),
                -BALL_RADIUS_Y <= dy <= BALL_RADIUS_Y,
                w == disc_half_width(dy as int),
                -w <= dx <= w + 1,
                forall|a: int, b: int|
                    grid.in_bounds(a, b) ==> #[trigger] grid.cell(a, b) == disc_drawn(
                        old(grid).cell(a, b),
                        a,
                        b,
                        cx as int,
                        cy as int,
                        rot as int,
                        dy as int,
                        dx as int,
                    ),
            decreases w + 1 - dx,
        {
            let ch = facet_glyph_exec(dx, dy, rot);
            let fg = facet_color_exec(dx, dy);
            let ghost before = *grid;
            let ox = offset(cx, dx);
            let oy = offset(cy, dy);
            if let (Some(x), Some(y)) = (ox, oy) {
                grid.set_glyph(x, y, ch, fg);
            }
            proof {
                assert forall|a: int, b: int| grid.in_bounds(a, b) implies #[trigger] grid.cell(a, b)
                    == disc_drawn(
                    old(grid).cell(a, b),
                    a,
                    b,
                    cx as int,
                    cy as int,
                    rot as int,
                    dy as int,
                    dx + 1,
                ) by {
                    grid.lemma_size();
                    assert(before.cell(a, b) == disc_drawn(
                        old(grid).cell(a, b),
                        a,
                        b,
                        cx as int,
                        cy as int,
                        rot as int,
                        dy as int,
                        dx as int,
                    ));
                }
            }
            dx = dx + 1;
        }
        dy = dy + 1;
    }
    let top: usize = cy.saturating_sub(BALL_RADIUS_Y as usize);
    let mut sy: usize = 0;
    while sy < top
        invariant
            grid.wf(),
            grid.width() == old(grid).width(),
            grid.height() == old(grid).height(),
            cx < grid.width(),
            top <= grid.height(),
            top == if cy >= BALL_RADIUS_Y { cy - BALL_RADIUS_Y } else { 0 },
            sy <= top,
            forall|a: int, b: int|
                grid.in_bounds(a, b) ==> #[trigger] grid.cell(a, b) == if a == cx && 0 <= b < sy {
                    with_glyph(old(grid).cell(a, b), '│', string_color())
                } else {
                    disc_drawn(
                        old(grid).cell(a, b),
                        a,
                        b,
                        cx as int,
                        cy as int,
                        rot as int,
                        BALL_RADIUS_Y + 1,
                        i64::MIN as int,
                    )
                },
        decreases top - sy,
    {
        grid.set_glyph(cx, sy, '│', (100, 100, 100));
        sy = sy + 1;
    }
}

} // verus!
