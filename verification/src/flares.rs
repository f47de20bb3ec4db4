//! Lens flares: which stars get one, and the streaks they cast.
//!
//! Star excitations are handed over as the IEEE-754 bit patterns of their
//! `f32` values, so that selecting and ranking them is integer work.

use vstd::prelude::*;
use crate::grid::{Cell, Grid, Rgb, with_glyph};

verus! {

/// Most flares drawn in one frame.
pub const MAX_FLARES: usize = 4;

/// Bit pattern of the `f32` excitation `0.8`, above which a star may flare.
pub const FLARE_THRESHOLD_BITS: u32 = 0x3F4C_CCCD;

/// Whether the `f32` with bit pattern `bits` is a NaN.
pub open spec fn is_nan_bits(bits: u32) -> bool {
    &&& bits & 0x7F80_0000u32 == 0x7F80_0000u32
    &&& bits & 0x007F_FFFFu32 != 0
}

/// A key whose unsigned order is the IEEE-754 total order of the `f32` with
/// bit pattern `bits`: negative values have all bits flipped, the others get
/// the sign bit set.
pub open spec fn order_key(bits: u32) -> u32 {
    if bits & 0x8000_0000u32 != 0 {
        !bits
    } else {
        bits | 0x8000_0000u32
    }
}

/// Whether the star with excitation bits `bits` is bright enough to flare:
/// its excitation is a number greater than `0.8`.
pub open spec fn is_flare_candidate(bits: u32) -> bool {
    !is_nan_bits(bits) && order_key(bits) > order_key(FLARE_THRESHOLD_BITS)
}

/// Star `i` ranks before star `j`: it is more excited, or equally excited and
/// earlier in the list.
pub open spec fn ranks_before(bits: Seq<u32>, i: int, j: int) -> bool {
    ||| order_key(bits[i]) > order_key(bits[j])
    ||| (order_key(bits[i]) == order_key(bits[j]) && i < j)
}

/// `chosen` lists, best first, the flare candidates among `bits` that rank
/// before all other candidates, as many as `limit` allows.
pub open spec fn is_top_flares(bits: Seq<u32>, chosen: Seq<usize>, limit: nat) -> bool {
    &&& chosen.len() <= limit
    &&& forall|k: int| 0 <= k < chosen.len() ==> #[trigger] chosen[k] < bits.len()
    &&& forall|k: int| 0 <= k < chosen.len() ==> is_flare_candidate(bits[#[trigger] chosen[k] as int])
    &&& forall|k: int, l: int|
        0 <= k < l < chosen.len() ==> ranks_before(bits, #[trigger] chosen[k] as int, #[trigger] chosen[l] as int)
    &&& forall|i: int|
        0 <= i < bits.len() && is_flare_candidate(bits[i]) && !chosen.contains(i as usize)
            ==> chosen.len() == limit && forall|k: int|
            0 <= k < chosen.len() ==> ranks_before(bits, #[trigger] chosen[k] as int, i)
}

/// The lens flares of the frame: the list that [`is_top_flares`] describes
/// for [`MAX_FLARES`] (there is exactly one, see [`lemma_top_flares_unique`]).
pub open spec fn top_flares(bits: Seq<u32>) -> Seq<usize> {
    choose|chosen: Seq<usize>| is_top_flares(bits, chosen, MAX_FLARES as nat)
}

/// Two lists that both describe the top flares agree up to position `k`.
proof fn lemma_top_flares_prefix(bits: Seq<u32>, c1: Seq<usize>, c2: Seq<usize>, limit: nat, k: int)
    requires
        is_top_flares(bits, c1, limit),
        is_top_flares(bits, c2, limit),
        0 <= k < c1.len(),
        k < c2.len(),
    ensures
        forall|m: int| 0 <= m <= k ==> c1[m] == c2[m],
    decreases k,
{
    if k > 0 {
        lemma_top_flares_prefix(bits, c1, c2, limit, k - 1);
    }
    let x = c1[k];
    let y = c2[k];
    if x != y {
        // Each ranks before the other, which cannot be.
        assert(ranks_before(bits, y as int, x as int)) by {
            if c2.contains(x) {
                let m = choose|m: int| 0 <= m < c2.len() && c2[m] == x;
                if m < k {
                    assert(c1[m] == x);
                    assert(ranks_before(bits, c1[m] as int, c1[k] as int));
                } else {
                    assert(m != k);
                    assert(ranks_before(bits, c2[k] as int, c2[m] as int));
                }
            } else {
                assert(is_flare_candidate(bits[c1[k] as int]));
                assert(c1[k] < bits.len());
                assert(ranks_before(bits, c2[k] as int, x as int));
            }
        }
        assert(ranks_before(bits, x as int, y as int)) by {
            if c1.contains(y) {
                let m = choose|m: int| 0 <= m < c1.len() && c1[m] == y;
                if m < k {
                    assert(c2[m] == y);
                    assert(ranks_before(bits, c2[m] as int, c2[k] as int));
                } else {
                    assert(m != k);
                    assert(ranks_before(bits, c1[k] as int, c1[m] as int));
                }
            } else {
                assert(is_flare_candidate(bits[c2[k] as int]));
                assert(c2[k] < bits.len());
                assert(ranks_before(bits, c1[k] as int, y as int));
            }
        }
    }
}

/// Only one list describes the top flares of a frame.
pub proof fn lemma_top_flares_unique(bits: Seq<u32>, c1: Seq<usize>, c2: Seq<usize>, limit: nat)
    requires
        is_top_flares(bits, c1, limit),
        is_top_flares(bits, c2, limit),
    ensures
        c1 == c2,
{
    if c1.len() > 0 && c2.len() > 0 {
        let k = if c1.len() < c2.len() { c1.len() - 1 } else { c2.len() - 1 };
        lemma_top_flares_prefix(bits, c1, c2, limit, k as int);
    }
    if c1.len() < c2.len() {
        let z = c2[c1.len() as int];
        assert(is_flare_candidate(bits[c2[c1.len() as int] as int]));
        if c1.contains(z) {
            let m = choose|m: int| 0 <= m < c1.len() && c1[m] == z;
            assert(c2[m] == z);
            assert(ranks_before(bits, c2[m] as int, c2[c1.len() as int] as int));
        }
        assert(c2[c1.len() as int] < bits.len());
    }
    if c2.len() < c1.len() {
        let z = c1[c2.len() as int];
        assert(is_flare_candidate(bits[c1[c2.len() as int] as int]));
        if c2.contains(z) {
            let m = choose|m: int| 0 <= m < c2.len() && c2[m] == z;
            assert(c1[m] == z);
            assert(ranks_before(bits, c1[m] as int, c1[c2.len() as int] as int));
        }
        assert(c1[c2.len() as int] < bits.len());
    }
    assert(c1 =~= c2);
}

/// Executable form of [`order_key`].
fn order_key_exec(bits: u32) -> (k: u32)
    ensures
        k == order_key(bits),
{
    if bits & 0x8000_0000u32 != 0 {
        !bits
    } else {
        bits | 0x8000_0000u32
    }
}

/// Executable form of [`is_flare_candidate`].
pub fn flare_candidate(bits: u32) -> (b: bool)
    ensures
        b == is_flare_candidate(bits),
{
    let nan = bits & 0x7F80_0000u32 == 0x7F80_0000u32 && bits & 0x007F_FFFFu32 != 0;
    !nan && order_key_exec(bits) > order_key_exec(FLARE_THRESHOLD_BITS)
}

/// Indices of the stars that get a lens flare this frame: the stars whose
/// excitation exceeds `0.8`, most excited first (ties in list order), at
/// most [`MAX_FLARES`] of them. `excitation_bits[i]` is the bit pattern of
/// star `i`'s excitation.
pub fn select_flares(excitation_bits: &Vec<u32>) -> (chosen: Vec<usize>)
    ensures
        is_top_flares(excitation_bits@, chosen@, MAX_FLARES as nat),
        chosen@ == top_flares(excitation_bits@),
{
    let ghost bits = excitation_bits@;
    let n: usize = excitation_bits.len();
    let mut taken: Vec<bool> = Vec::new();
    while taken.len() < n
        invariant
            taken.len() <= n,
            forall|i: int| 0 <= i < taken.len() ==> !#[trigger] taken@[i],
        decreases n - taken.len(),
    {
        taken.push(false);
    }
    let mut chosen: Vec<usize> = Vec::new();
    loop
        invariant
            n == bits.len(),
            bits == excitation_bits@,
            taken.len() == n,
            chosen.len() <= MAX_FLARES,
            forall|i: int| 0 <= i < n ==> (#[trigger] taken@[i] <==> chosen@.contains(i as usize)),
            forall|k: int| 0 <= k < chosen.len() ==> #[trigger] chosen@[k] < n,
            forall|k: int| 0 <= k < chosen.len() ==> is_flare_candidate(bits[#[trigger] chosen@[k] as int]),
            forall|k: int, l: int|
                0 <= k < l < chosen.len() ==> ranks_before(bits, #[trigger] chosen@[k] as int, #[trigger] chosen@[l] as int),
            forall|i: int, k: int|
                #![trigger taken@[i], chosen@[k]]
                0 <= i < n && is_flare_candidate(bits[i]) && !taken@[i] && 0 <= k < chosen.len()
                    ==> ranks_before(bits, chosen@[k] as int, i),
        ensures
            is_top_flares(bits, chosen@, MAX_FLARES as nat),
        decreases MAX_FLARES - chosen.len(),
    {
        if chosen.len() == MAX_FLARES {
            assert forall|i: int|
                0 <= i < bits.len() && is_flare_candidate(bits[i]) && !chosen@.contains(i as usize)
                implies chosen@.len() == MAX_FLARES && forall|k: int|
                0 <= k < chosen.len() ==> ranks_before(bits, #[trigger] chosen@[k] as int, i) by {
                assert(!taken@[i]);
            }
            break;
        }
        let mut best: usize = n;
        let mut best_key: u32 = 0;
        let mut i: usize = 0;
        while i < n
            invariant
                n == bits.len(),
                bits == excitation_bits@,
                taken.len() == n,
                i <= n,
                best == n || (best < i && !taken@[best as int] && is_flare_candidate(bits[best as int])
                    && best_key == order_key(bits[best as int])),
                forall|j: int|
                    0 <= j < i && !taken@[j] && is_flare_candidate(bits[j]) ==> best != n && (j == best
                        || ranks_before(bits, best as int, j)),
            decreases n - i,
        {
            let b = excitation_bits[i];
            if !taken[i] && flare_candidate(b) {
                let key = order_key_exec(b);
                if best == n || key > best_key {
                    best = i;
                    best_key = key;
                }
            }
            i = i + 1;
        }
        if best == n {
            assert forall|i: int|
                0 <= i < bits.len() && is_flare_candidate(bits[i]) && !chosen@.contains(i as usize)
                implies chosen@.len() == MAX_FLARES && forall|k: int|
                0 <= k < chosen.len() ==> ranks_before(bits, #[trigger] chosen@[k] as int, i) by {
                assert(!taken@[i]);
            }
            break;
        }
        let ghost old_chosen = chosen@;
        chosen.push(best);
        taken.set(best, true);
        proof {
            assert forall|j: int| 0 <= j < n implies (#[trigger] taken@[j] <==> chosen@.contains(j as usize)) by {
                if j == best as int {
                    assert(chosen@[old_chosen.len() as int] == best);
                } else {
                    if chosen@.contains(j as usize) {
                        let k = choose|k: int| 0 <= k < chosen@.len() && chosen@[k] == j as usize;
                        assert(k < old_chosen.len());
                        assert(old_chosen[k] == j as usize);
                    }
                    if old_chosen.contains(j as usize) {
                        let k = choose|k: int| 0 <= k < old_chosen.len() && old_chosen[k] == j as usize;
                        assert(chosen@[k] == j as usize);
                    }
                }
            }
        }
    }
    proof {
        lemma_top_flares_unique(bits, chosen@, top_flares(bits), MAX_FLARES as nat);
    }
    chosen
}

/// Brightness left at distance `d` along a streak that starts at `alpha`
/// and dims by `step` per cell.
pub open spec fn streak_fade_spec(alpha: u8, d: int, step: int) -> int {
    if alpha >= d * step {
        alpha - d * step
    } else {
        0
    }
}

/// Brightness left at distance `d` along a streak that starts at `alpha`
/// and dims by `step` per cell.
pub fn streak_fade(alpha: u8, d: usize, step: usize) -> (fade: u8)
    requires
        d * step <= u8::MAX,
    ensures
        fade == streak_fade_spec(alpha, d as int, step as int),
{
    let dim: u8 = (d * step) as u8;
    alpha.saturating_sub(dim)
}

/// A streak cell is drawn only while its brightness exceeds this.
pub const STREAK_FLOOR: u8 = 8;

/// Whether a streak with the given start, step and length reaches distance
/// `d` from the star.
pub open spec fn streak_reaches(alpha: u8, step: int, len: int, d: int) -> bool {
    1 <= d < len && streak_fade_spec(alpha, d, step) > STREAK_FLOOR
}

/// What a streak leaves in the cell `(a, b)`, given the cell `c` that was
/// there: a horizontal streak runs along row `sy` through column `sx` and
/// draws `─`, a vertical one runs along column `sx` and draws `│`; it paints
/// only blank cells and cells of its own glyph.
pub open spec fn streak_cell(
    c: Cell,
    a: int,
    b: int,
    sx: int,
    sy: int,
    horizontal: bool,
    alpha: u8,
    len: int,
    step: int,
    colors: Seq<Rgb>,
) -> Cell {
    let glyph = if horizontal { '─' } else { '│' };
    let on_line = if horizontal { b == sy } else { a == sx };
    let d = if horizontal { if a >= sx { a - sx } else { sx - a } } else { if b >= sy { b - sy } else { sy - b } };
    if on_line && streak_reaches(alpha, step, len, d) && (c.ch == ' ' || c.ch == glyph) {
        with_glyph(c, glyph, colors[d])
    } else {
        c
    }
}

/// Paints `glyph` in colour `fg` into `(x, y)` when that cell is on the grid
/// and blank or already shows `glyph`.
fn paint_streak_cell(grid: &mut Grid, x: usize, y: usize, glyph: char, fg: Rgb)
    requires
        old(grid).wf(),
        old(grid).in_bounds(x as int, y as int),
    ensures
        final(grid).wf(),
        final(grid).width() == old(grid).width(),
        final(grid).height() == old(grid).height(),
        forall|a: int, b: int|
            final(grid).in_bounds(a, b) ==> #[trigger] final(grid).cell(a, b) == if a == x && b == y
                && (old(grid).cell(a, b).ch == ' ' || old(grid).cell(a, b).ch == glyph) {
                with_glyph(old(grid).cell(a, b), glyph, fg)
            } else {
                old(grid).cell(a, b)
            },
{
    let c = grid.get(x, y);
    if c.ch == ' ' || c.ch == glyph {
        grid.set_glyph(x, y, glyph, fg);
    }
}

/// Draws the streak of a lens flare centred on the star at `(sx, sy)`:
/// `len - 1` cells on each side, along the row when `horizontal` and along
/// the column otherwise. The cell at distance `d` has brightness
/// `alpha - d * step` (never below zero); it is drawn, in `colors[d]`, when
/// that brightness exceeds [`STREAK_FLOOR`], the cell lies on the grid and
/// it is blank or already shows the streak's glyph. Nothing else changes.
pub fn paint_streak(
    grid: &mut Grid,
    sx: usize,
    sy: usize,
    horizontal: bool,
    alpha: u8,
    len: usize,
    step: usize,
    colors: &Vec<Rgb>,
)
    requires
        old(grid).wf(),
        old(grid).in_bounds(sx as int, sy as int),
        len * step <= u8::MAX,
        colors.len() >= len,
    ensures
        final(grid).wf(),
        final(grid).width() == old(grid).width(),
        final(grid).height() == old(grid).height(),
        forall|a: int, b: int|
            final(grid).in_bounds(a, b) ==> #[trigger] final(grid).cell(a, b) == streak_cell(
                old(grid).cell(a, b),
                a,
                b,
                sx as int,
                sy as int,
                horizontal,
                alpha,
                len as int,
                step as int,
                colors@,
            ),
{
    let glyph = if horizontal { '─' } else { '│' };
    let cols = grid.cols();
    let rows = grid.rows();
    if len == 0 {
        return;
    }
    let mut d: usize = 1;
    while d < len
        invariant
            grid.wf(),
            grid.width() == old(grid).width(),
            grid.height() == old(grid).height(),
            cols == grid.width(),
            rows == grid.height(),
            (sx as int) < cols,
            (sy as int) < rows,
            1 <= d <= len,
            len * step <= u8::MAX,
            colors.len() >= len,
            glyph == if horizontal { '─' } else { '│' },
            forall|a: int, b: int|
                grid.in_bounds(a, b) ==> #[trigger] grid.cell(a, b) == streak_cell(
                    old(grid).cell(a, b),
                    a,
                    b,
                    sx as int,
                    sy as int,
                    horizontal,
                    alpha,
                    d as int,
                    step as int,
                    colors@,
                ),
        decreases len - d,
    {
        assert(d * step <= len * step) by (nonlinear_arith)
            requires
                d <= len,
        ;
        let fade: u8 = streak_fade(alpha, d, step);
        let fg = colors[d];
        if fade > STREAK_FLOOR {
            if horizontal {
                if d < cols - sx {
                    paint_streak_cell(grid, sx + d, sy, glyph, fg);
                }
                if sx >= d {
                    paint_streak_cell(grid, sx - d, sy, glyph, fg);
                }
            } else {
                if d < rows - sy {
                    paint_streak_cell(grid, sx, sy + d, glyph, fg);
                }
                if sy >= d {
                    paint_streak_cell(grid, sx, sy - d, glyph, fg);
                }
            }
        }
        d = d + 1;
    }
}

/// A lens-flare streak is symmetric about its star and reaches both ways:
/// the cells `d` columns left and right of the star (for a horizontal
/// streak), or `d` rows above and below it (for a vertical one), holding
/// the same cell end the same; and a blank cell at distance `d`, with
/// `1 <= d < len` and `alpha - d * step > 8`, is painted on both sides with
/// the streak's glyph in `colors[d]`, keeping its background.
pub proof fn lemma_streak_symmetric(
    c: Cell,
    sx: int,
    sy: int,
    alpha: u8,
    len: int,
    step: int,
    colors: Seq<Rgb>,
    d: int,
)
    requires
        d >= 1,
    ensures
        streak_cell(c, sx + d, sy, sx, sy, true, alpha, len, step, colors) == streak_cell(
            c,
            sx - d,
            sy,
            sx,
            sy,
            true,
            alpha,
            len,
            step,
            colors,
        ),
        streak_cell(c, sx, sy + d, sx, sy, false, alpha, len, step, colors) == streak_cell(
            c,
            sx,
            sy - d,
            sx,
            sy,
            false,
            alpha,
            len,
            step,
            colors,
        ),
        c.ch == ' ' && d < len && alpha - d * step > 8 ==> {
            &&& streak_cell(c, sx - d, sy, sx, sy, true, alpha, len, step, colors) == (Cell {
                ch: '─',
                fg: colors[d],
                ..c
            })
            &&& streak_cell(c, sx + d, sy, sx, sy, true, alpha, len, step, colors) == (Cell {
                ch: '─',
                fg: colors[d],
                ..c
            })
            &&& streak_cell(c, sx, sy - d, sx, sy, false, alpha, len, step, colors) == (Cell {
                ch: '│',
                fg: colors[d],
                ..c
            })
            &&& streak_cell(c, sx, sy + d, sx, sy, false, alpha, len, step, colors) == (Cell {
                ch: '│',
                fg: colors[d],
                ..c
            })
        },
{
}

} // verus!
