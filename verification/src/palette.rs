//! Colours and glyphs of the scene.

use vstd::prelude::*;
use crate::grid::Rgb;

verus! {

/// Number of neon colours.
pub const NEON_COUNT: usize = 6;

/// The neon colours: pink, cyan, yellow, green, purple, orange.
pub open spec fn neon_spec(i: int) -> Rgb {
    if i == 0 {
        (255u8, 0u8, 128u8)
    } else if i == 1 {
        (0u8, 255u8, 255u8)
    } else if i == 2 {
        (255u8, 255u8, 0u8)
    } else if i == 3 {
        (50u8, 255u8, 50u8)
    } else if i == 4 {
        (180u8, 0u8, 255u8)
    } else {
        (255u8, 127u8, 0u8)
    }
}

/// Neon colour number `i`.
pub fn neon_color(i: usize) -> (c: Rgb)
    requires
        i < NEON_COUNT,
    ensures
        c == neon_spec(i as int),
{
    match i {
        0 => (255, 0, 128),
        1 => (0, 255, 255),
        2 => (255, 255, 0),
        3 => (50, 255, 50),
        4 => (180, 0, 255),
        _ => (255, 127, 0),
    }
}

/// Number of confetti glyphs.
pub const CONFETTI_GLYPH_COUNT: usize = 5;

/// The confetti glyphs.
pub open spec fn confetti_glyph_spec(i: int) -> char {
    if i == 0 {
        '*'
    } else if i == 1 {
        '+'
    } else if i == 2 {
        'o'
    } else if i == 3 {
        'x'
    } else {
        '•'
    }
}

/// Confetti glyph number `i`.
pub fn confetti_glyph(i: usize) -> (ch: char)
    requires
        i < CONFETTI_GLYPH_COUNT,
    ensures
        ch == confetti_glyph_spec(i as int),
{
    match i {
        0 => '*',
        1 => '+',
        2 => 'o',
        3 => 'x',
        _ => '•',
    }
}

/// Base colour of light ray `k` of the mirror ball: the neon colours in turn.
pub fn ray_color(k: usize) -> (c: Rgb)
    ensures
        c == neon_spec(k as int % NEON_COUNT as int),
{
    neon_color(k % NEON_COUNT)
}

/// Glyph of a light ray at distance `d` from the ball.
pub open spec fn ray_glyph_spec(d: int) -> char {
    if d < 10 {
        '*'
    } else if d < 20 {
        '+'
    } else {
        '.'
    }
}

/// Glyph of a light ray at distance `d` from the ball.
pub fn ray_glyph(d: usize) -> (ch: char)
    ensures
        ch == ray_glyph_spec(d as int),
{
    if d < 10 {
        '*'
    } else if d < 20 {
        '+'
    } else {
        '.'
    }
}

/// Resting glyph of star number `i`.
pub open spec fn star_glyph_spec(i: int) -> char {
    if i % 8 == 0 {
        '✦'
    } else if i % 3 == 0 {
        '•'
    } else {
        '.'
    }
}

/// Resting glyph of star number `i`: every eighth star is a sparkle, of the
/// rest every third a dot, and the others a point.
pub fn star_glyph(i: usize) -> (ch: char)
    ensures
        ch == star_glyph_spec(i as int),
{
    if i % 8 == 0 {
        '✦'
    } else if i % 3 == 0 {
        '•'
    } else {
        '.'
    }
}

} // verus!
