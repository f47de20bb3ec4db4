//! Point decorations painted over the scene: the mirror ball's light rays
//! and the confetti.

use vstd::prelude::*;
use crate::grid::{Cell, Grid, Rgb, is_overlay_glyph, with_glyph};
use crate::palette::{confetti_glyph_spec, ray_glyph_spec, star_glyph_spec};
use crate::ball::facet_glyph;

verus! {

/// A glyph to paint at a position of the grid.
#[derive(Clone, Copy)]
pub struct Spark {
    pub x: usize,
    pub y: usize,
    pub ch: char,
    pub fg: Rgb,
}

/// What painting `sparks` in order leaves in the cell `(a, b)` that held
/// `c`: each spark on that cell shows its glyph if the cell then shows an
/// overlay glyph, and is hidden otherwise.
pub open spec fn sparks_cell(c: Cell, a: int, b: int, sparks: Seq<Spark>) -> Cell
    decreases sparks.len(),
{
    if sparks.len() == 0 {
        c
    } else {
        let prev = sparks_cell(c, a, b, sparks.drop_last());
        let s = sparks.last();
        if s.x == a && s.y == b && is_overlay_glyph(prev.ch) {
            with_glyph(prev, s.ch, s.fg)
        } else {
            prev
        }
    }
}

/// Paints `sparks` in order, each only where it lands on the grid on a cell
/// showing an overlay glyph.
pub fn paint_sparks(grid: &mut Grid, sparks: &Vec<Spark>)
    requires
        old(grid).wf(),
    ensures
        final(grid).wf(),
        final(grid).width() == old(grid).width(),
        final(grid).height() == old(grid).height(),
        forall|a: int, b: int|
            final(grid).in_bounds(a, b) ==> #[trigger] final(grid).cell(a, b) == sparks_cell(
                old(grid).cell(a, b),
                a,
                b,
                sparks@,
            ),
{
    let mut i: usize = 0;
    while i < sparks.len()
        invariant
            grid.wf(),
            grid.width() == old(grid).width(),
            grid.height() == old(grid).height(),
            i <= sparks.len(),
            forall|a: int, b: int|
                grid.in_bounds(a, b) ==> #[trigger] grid.cell(a, b) == sparks_cell(
                    old(grid).cell(a, b),
                    a,
                    b,
                    sparks@.subrange(0, i as int),
                ),
        decreases sparks.len() - i,
    {
        let s = sparks[i];
        grid.paint_over(s.x, s.y, s.ch, s.fg);
        proof {
            assert forall|a: int, b: int| grid.in_bounds(a, b) implies #[trigger] grid.cell(a, b)
                == sparks_cell(old(grid).cell(a, b), a, b, sparks@.subrange(0, i + 1)) by {
                assert(sparks@.subrange(0, i + 1).drop_last() =~= sparks@.subrange(0, i as int));
            }
        }
        i = i + 1;
    }
    proof {
        assert(sparks@.subrange(0, sparks@.len() as int) =~= sparks@);
    }
}

/// A spark shows on every faint glyph of the scene and hides behind every
/// solid one. It replaces, with its own glyph and colour, a blank cell, a
/// light ray at any distance, a flare streak, a resting point star and the
/// confetti glyphs `*` and `+`; it leaves a mirror ball facet, an
/// equalizer bar, the confetti glyphs `o`, `x`, `•` and the sparkling
/// star glyphs `✦`, `✹` as they were.
pub proof fn lemma_spark_overlay(c: Cell, s: Spark, d: int, i: int, dx: int, dy: int, rot: int, k: int)
    ensures
        ({
            let faint = c.ch == ' ' || c.ch == ray_glyph_spec(d) || c.ch == '─' || c.ch == '│' || (
            star_glyph_spec(i) == '.' && c.ch == star_glyph_spec(i)) || ((k == 0 || k == 1)
                && c.ch == confetti_glyph_spec(k));
            faint ==> sparks_cell(c, s.x as int, s.y as int, seq![s]) == (Cell { ch: s.ch, fg: s.fg, ..c })
        }),
        ({
            let solid = c.ch == facet_glyph(dx, dy, rot) || c.ch == '█' || (2 <= k <= 4 && c.ch
                == confetti_glyph_spec(k)) || c.ch == '✦' || c.ch == '✹';
            solid ==> sparks_cell(c, s.x as int, s.y as int, seq![s]) == c
        }),
{
    let one = seq![s];
    assert(one.len() == 1);
    assert(one.drop_last() =~= Seq::<Spark>::empty());
    assert(one.last() == s);
    assert(sparks_cell(c, s.x as int, s.y as int, one.drop_last()) == c);
    assert(sparks_cell(c, s.x as int, s.y as int, one) == if is_overlay_glyph(c.ch) {
        with_glyph(c, s.ch, s.fg)
    } else {
        c
    });
}

} // verus!
