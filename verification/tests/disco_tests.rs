use disco::ball::render_disco_ball;
use disco::equalizer::{bar_color, bar_count, max_bar_height, render_equalizer};
use disco::flares::{flare_candidate, paint_streak, select_flares, streak_fade, FLARE_THRESHOLD_BITS};
use disco::frame::{draw_disco, draw_disco_cells, Frame};
use disco::grid::{Cell, Grid};
use disco::logo::{logo_extent, logo_origin, render_logo};
use disco::palette::{confetti_glyph, neon_color, ray_color, ray_glyph, star_glyph};
use disco::sparks::{paint_sparks, Spark};
use disco::stars::{render_stars, StarMark, H_STREAK_LEN, H_STREAK_STEP, V_STREAK_LEN};

fn blank() -> Cell {
    Cell { ch: ' ', fg: (1, 2, 3), bg: (9, 9, 9), bold: false }
}

fn bits(v: &[f32]) -> Vec<u32> {
    v.iter().map(|x| x.to_bits()).collect()
}

/// The selection as the screensaver wrote it with floats.
fn float_flares(v: &[f32]) -> Vec<usize> {
    let mut c: Vec<(usize, f32)> = v
        .iter()
        .enumerate()
        .filter(|(_, e)| **e > 0.8)
        .map(|(i, e)| (i, *e))
        .collect();
    c.sort_by(|a, b| b.1.total_cmp(&a.1));
    c.iter().take(4).map(|&(i, _)| i).collect()
}

#[test]
fn test_disco_ball_coordinate_math() {
    // Testing the distance and angle math from disco ball to a star position
    let cols = 80;
    let rows = 24;
    let disco_xf = cols as f32 / 2.0;
    let disco_yf = 4.0f32;

    let star_x_pct = 0.6;
    let star_y_pct = 0.5;

    let star_xf = star_x_pct * cols as f32; // 48.0
    let star_yf = star_y_pct * rows as f32; // 12.0

    let dx = (star_xf - disco_xf) * 0.55; // (48.0 - 40.0) * 0.55 = 4.4
    let dy = star_yf - disco_yf; // 12.0 - 4.0 = 8.0

    let dist = (dx * dx + dy * dy).sqrt();
    let angle = if dy > 0.0 { dy.atan2(dx) } else { 0.0 };

    // Expected values
    let expected_dist = (4.4f32 * 4.4f32 + 8.0f32 * 8.0f32).sqrt();
    let expected_angle = 8.0f32.atan2(4.4f32);

    assert!((dist - expected_dist).abs() < 1e-5);
    assert!((angle - expected_angle).abs() < 1e-5);
}

#[test]
fn test_grid_put_get_and_bounds() {
    let mut g = Grid::new(4, 3, blank());
    assert_eq!(g.cols(), 4);
    assert_eq!(g.rows(), 3);
    let c = Cell { ch: 'Q', fg: (10, 20, 30), bg: (0, 0, 0), bold: true };
    g.put(3, 2, c);
    g.put(4, 0, c); // off the grid: ignored
    assert_eq!(g.get(3, 2).ch, 'Q');
    assert_eq!(g.get(0, 0).ch, ' ');
    let cells = g.into_cells();
    assert_eq!(cells.len(), 12);
    assert_eq!(cells[2 * 4 + 3].ch, 'Q');
    assert!(Grid::from_cells(4, 3, cells.clone()).is_some());
    assert!(Grid::from_cells(5, 3, cells).is_none());
}

#[test]
fn test_clear_background_is_black() {
    let mut g = Grid::new(80, 24, blank());
    g.clear_background();
    let cells = g.into_cells();
    assert!(cells.iter().all(|c| c.bg == (0, 0, 0) && c.ch == ' ' && c.fg == (1, 2, 3)));
}

#[test]
fn test_paint_over_respects_solid_glyphs() {
    let mut g = Grid::new(3, 1, blank());
    g.put(1, 0, Cell { ch: '█', ..blank() });
    g.paint_over(0, 0, 'o', (5, 5, 5));
    g.paint_over(1, 0, 'o', (5, 5, 5));
    g.paint_over(0, 0, 'x', (6, 6, 6)); // 'o' is not an overlay glyph
    assert_eq!(g.get(0, 0).ch, 'o');
    assert_eq!(g.get(0, 0).fg, (5, 5, 5));
    assert_eq!(g.get(0, 0).bg, (9, 9, 9));
    assert_eq!(g.get(1, 0).ch, '█');
    g.set_glyph(1, 0, '*', (7, 7, 7));
    assert_eq!(g.get(1, 0).ch, '*');
    assert_eq!(g.get(1, 0).bg, (9, 9, 9));
}

#[test]
fn test_palette() {
    assert_eq!(neon_color(0), (255, 0, 128));
    assert_eq!(neon_color(5), (255, 127, 0));
    assert_eq!(ray_color(7), (0, 255, 255));
    assert_eq!(confetti_glyph(4), '•');
    assert_eq!(ray_glyph(4), '*');
    assert_eq!(ray_glyph(10), '+');
    assert_eq!(ray_glyph(29), '.');
    assert_eq!(star_glyph(0), '✦');
    assert_eq!(star_glyph(1), '.');
    assert_eq!(star_glyph(3), '•');
    assert_eq!(star_glyph(8), '✦');
    assert_eq!(star_glyph(24), '✦');
    assert_eq!(star_glyph(9), '•');
}

#[test]
fn test_flare_candidates_match_float_comparison() {
    assert_eq!(FLARE_THRESHOLD_BITS, 0.8f32.to_bits());
    for x in [0.0f32, -0.0, 0.5, 0.8, 0.80001, 0.9, 1.5, -1.0, f32::NAN, f32::INFINITY, f32::NEG_INFINITY] {
        assert_eq!(flare_candidate(x.to_bits()), x > 0.8, "value {}", x);
    }
}

#[test]
fn test_select_flares_picks_most_excited() {
    let v = [0.5f32, 0.9, 1.2, 0.9, 1.4, 0.85, f32::NAN, 2.0];
    assert_eq!(select_flares(&bits(&v)), vec![7, 4, 2, 1]);
    let ties = [1.0f32; 6];
    assert_eq!(select_flares(&bits(&ties)), vec![0, 1, 2, 3]);
    let few = [0.1f32, 0.95, -3.0, 0.7];
    assert_eq!(select_flares(&bits(&few)), vec![1]);
    assert_eq!(select_flares(&Vec::new()), Vec::<usize>::new());
}

#[test]
fn test_select_flares_matches_float_sort() {
    let mut seed: u32 = 7;
    for _ in 0..200 {
        let n = (seed % 23) as usize;
        let mut v = Vec::new();
        for _ in 0..n {
            seed = seed.wrapping_mul(1103515245).wrapping_add(12345);
            v.push(((seed >> 16) % 24) as f32 / 10.0);
        }
        seed = seed.wrapping_mul(1103515245).wrapping_add(12345);
        assert_eq!(select_flares(&bits(&v)), float_flares(&v), "{:?}", v);
    }
}

#[test]
fn test_streak_fade() {
    assert_eq!(streak_fade(100, 3, 7), 79);
    assert_eq!(streak_fade(20, 11, 7), 0);
    assert_eq!(streak_fade(80, 3, 17), 29);
}

#[test]
fn test_paint_streak_horizontal() {
    let mut g = Grid::new(20, 5, blank());
    let colors: Vec<(u8, u8, u8)> = (0..12).map(|d| (d as u8, 0, 0)).collect();
    g.put(12, 2, Cell { ch: '█', ..blank() });
    paint_streak(&mut g, 10, 2, true, 40, H_STREAK_LEN, H_STREAK_STEP, &colors);
    // 40 - 7 d > 8 for d <= 4
    assert_eq!(g.get(11, 2).ch, '─');
    assert_eq!(g.get(11, 2).fg, (1, 0, 0));
    assert_eq!(g.get(12, 2).ch, '█');
    assert_eq!(g.get(14, 2).fg, (4, 0, 0));
    assert_eq!(g.get(15, 2).ch, ' ');
    assert_eq!(g.get(6, 2).ch, '─');
    assert_eq!(g.get(5, 2).ch, ' ');
    assert_eq!(g.get(10, 2).ch, ' ');
    assert_eq!(g.get(10, 1).ch, ' ');
}

#[test]
fn test_paint_streak_vertical_clipped() {
    let mut g = Grid::new(3, 3, blank());
    let colors = vec![(0, 0, 0), (1, 1, 1), (2, 2, 2), (3, 3, 3)];
    paint_streak(&mut g, 1, 0, false, 120, V_STREAK_LEN, 17, &colors);
    assert_eq!(g.get(1, 1).ch, '│');
    assert_eq!(g.get(1, 2).ch, '│');
    assert_eq!(g.get(1, 2).fg, (2, 2, 2));
    assert_eq!(g.get(1, 0).ch, ' ');
}

#[test]
fn test_mirror_ball_matches_ellipse() {
    let cx = 10usize;
    let cy = 4usize;
    let mut g = Grid::new(21, 9, blank());
    render_disco_ball(&mut g, 1, &Vec::new(), cx, cy, 0);
    for dy in -3i32..=3 {
        let width_at_y = (5.0f32 * (1.0 - (dy as f32 / 3.0).powi(2)).max(0.0).sqrt()).round() as i32;
        for dx in -6i32..=6 {
            let x = (cx as i32 + dx) as usize;
            let y = (cy as i32 + dy) as usize;
            let c = g.get(x, y);
            if dx.abs() <= width_at_y {
                let disc_chars = ['░', '▒', '▓', '█'];
                assert_eq!(c.ch, disc_chars[((dx + dy).abs() % 4) as usize]);
                let dist_center = (dx as f32).powi(2) + (dy as f32 * 1.8).powi(2);
                let fg = if dist_center < 3.0 {
                    (255, 255, 255)
                } else if dist_center < 9.0 {
                    (200, 220, 255)
                } else {
                    (100, 110, 130)
                };
                assert_eq!(c.fg, fg, "dx {} dy {}", dx, dy);
                assert_eq!(c.bg, (9, 9, 9));
            } else {
                assert_eq!(c.ch, ' ', "dx {} dy {}", dx, dy);
            }
        }
    }
    assert_eq!(g.get(cx, 0).ch, '│');
    assert_eq!(g.get(cx, 0).fg, (100, 100, 100));
    assert_eq!(g.get(cx + 1, 0).ch, ' ');
}

#[test]
fn test_mirror_ball_turns_and_clips() {
    let mut g = Grid::new(3, 2, blank());
    render_disco_ball(&mut g, 1, &Vec::new(), 1, 1, 5);
    // centre: |0 + 0 + 5| % 4 == 1
    assert_eq!(g.get(1, 1).ch, '▒');
    assert_eq!(g.get(0, 0).ch, '█'); // dx -1, dy -1: |3| % 4
    assert_eq!(g.get(1, 0).ch, '░'); // dx 0, dy -1: |4| % 4
    let mut h = Grid::new(3, 2, blank());
    render_disco_ball(&mut h, 1, &Vec::new(), 1, 1, -5);
    assert_eq!(h.get(1, 1).ch, '▒');
}

#[test]
fn test_equalizer_sizes() {
    assert_eq!(max_bar_height(24), 4);
    assert_eq!(max_bar_height(30), 6);
    assert_eq!(max_bar_height(60), 10);
    assert_eq!(bar_count(80), 27);
    assert_eq!(bar_count(0), 0);
    assert_eq!(bar_count(3), 1);
    assert_eq!(bar_count(4), 2);
    assert_eq!(bar_count(80), (0..80).step_by(3).count());
}

#[test]
fn test_bar_color_matches_float_thresholds() {
    for max_h in 4usize..=10 {
        for dy in 0usize..12 {
            let pct = dy as f32 / max_h as f32;
            let expected = if pct < 0.4 {
                (0, 255, 128)
            } else if pct < 0.75 {
                (255, 200, 0)
            } else {
                (255, 0, 100)
            };
            assert_eq!(bar_color(dy, max_h), expected, "dy {} max {}", dy, max_h);
        }
    }
}

#[test]
fn test_render_equalizer_bars() {
    let mut g = Grid::new(7, 6, blank());
    assert_eq!(max_bar_height(6), 4);
    render_equalizer(&mut g, &vec![2, 0, 7]);
    assert_eq!(g.get(0, 5).ch, '█');
    assert_eq!(g.get(1, 4).ch, '█');
    assert_eq!(g.get(0, 5).fg, (0, 255, 128));
    assert_eq!(g.get(0, 3).ch, ' ');
    assert_eq!(g.get(2, 5).ch, ' ');
    assert_eq!(g.get(3, 5).ch, ' ');
    assert_eq!(g.get(6, 5).ch, '█');
    assert_eq!(g.get(6, 2).fg, (255, 0, 100));
    // taller than the screen: the top row shows the last segment drawn
    assert_eq!(g.get(6, 0).ch, '█');
    assert_eq!(g.get(6, 0).fg, bar_color(6, 4));
    assert_eq!(g.get(5, 0).ch, ' ');
}

#[test]
fn test_logo_placement() {
    let lines: Vec<Vec<char>> = vec!["AB C".chars().collect(), "XY".chars().collect()];
    assert_eq!(logo_extent(&lines), (4, 2));
    assert_eq!(logo_origin(10, 5, 4, 2), (3, 1));
    assert_eq!(logo_origin(2, 1, 4, 2), (0, 0));
    let mut g = Grid::new(10, 5, blank());
    render_logo(&mut g, &lines, (7, 8, 9));
    assert_eq!(g.get(3, 1).ch, 'A');
    assert!(g.get(3, 1).bold);
    assert_eq!(g.get(3, 1).fg, (7, 8, 9));
    assert_eq!(g.get(5, 1).ch, ' ');
    assert!(!g.get(5, 1).bold);
    assert_eq!(g.get(6, 1).ch, 'C');
    assert_eq!(g.get(4, 2).ch, 'Y');
    assert_eq!(g.get(5, 2).ch, ' ');
}

#[test]
fn test_logo_clipped() {
    let lines: Vec<Vec<char>> = vec!["ABCDE".chars().collect(), "FGHIJ".chars().collect()];
    let mut g = Grid::new(3, 1, blank());
    render_logo(&mut g, &lines, (1, 1, 1));
    assert_eq!(g.get(0, 0).ch, 'A');
    assert_eq!(g.get(2, 0).ch, 'C');
}

#[test]
fn test_sparks_do_not_cover_solid_confetti() {
    let mut g = Grid::new(3, 3, blank());
    let sparks = vec![
        Spark { x: 1, y: 1, ch: 'o', fg: (1, 0, 0) },
        Spark { x: 1, y: 1, ch: '*', fg: (2, 0, 0) },
        Spark { x: 2, y: 2, ch: '+', fg: (3, 0, 0) },
        Spark { x: 2, y: 2, ch: 'x', fg: (4, 0, 0) },
        Spark { x: 9, y: 9, ch: 'x', fg: (4, 0, 0) },
    ];
    paint_sparks(&mut g, &sparks);
    assert_eq!(g.get(1, 1).ch, 'o');
    assert_eq!(g.get(1, 1).fg, (1, 0, 0));
    assert_eq!(g.get(2, 2).ch, 'x');
    assert_eq!(g.get(0, 0).ch, ' ');
}

fn star(x: usize, y: usize, excitation: f32) -> StarMark {
    StarMark {
        x,
        y,
        ch: '.',
        fg: (50, 50, 65),
        bold: false,
        excitation_bits: excitation.to_bits(),
        flare_alpha_h: 100,
        flare_alpha_v: 80,
        flare_colors_h: vec![(200, 0, 0); 12],
        flare_colors_v: vec![(0, 200, 0); 4],
    }
}

#[test]
fn test_star_field_with_flares() {
    let mut g = Grid::new(30, 10, blank());
    let stars = vec![star(5, 5, 0.0), star(20, 5, 1.0), star(40, 5, 1.5)];
    let flares = select_flares(&stars.iter().map(|s| s.excitation_bits).collect());
    assert_eq!(flares, vec![2, 1]);
    render_stars(&mut g, &stars);
    assert_eq!(g.get(5, 5).ch, '.');
    assert_eq!(g.get(5, 5).bg, (0, 0, 0));
    assert_eq!(g.get(20, 5).ch, '.');
    assert_eq!(g.get(21, 5).ch, '─');
    assert_eq!(g.get(20, 6).ch, '│');
    assert_eq!(g.get(20, 6).fg, (0, 200, 0));
    assert_eq!(g.get(6, 5).ch, ' ');
    // the off-screen star flares but draws nothing
    assert_eq!(g.get(29, 5).ch, '─');
    assert_eq!(g.get(29, 5).fg, (200, 0, 0));
}

#[test]
fn test_frame_background_black() {
    let mut g = Grid::new(80, 24, blank());
    let frame = Frame {
        stars: vec![star(3, 3, 0.9)],
        ball_option: 1,
        rays: vec![Spark { x: 44, y: 7, ch: '*', fg: (9, 0, 0) }],
        ball_turn: 0,
        bar_heights: vec![1; 27],
        confetti: vec![Spark { x: 60, y: 20, ch: 'o', fg: (0, 9, 0) }],
        logo_lines: vec!["DISCO".chars().collect()],
        logo_color: (1, 2, 3),
    };
    draw_disco(&mut g, &frame);
    let cells = g.into_cells();
    assert_eq!(cells[0].bg, (0, 0, 0));
    assert!(cells.iter().all(|c| c.bg == (0, 0, 0)));
    assert_eq!(cells[7 * 80 + 44].ch, '*');
    assert_eq!(cells[20 * 80 + 60].ch, 'o');
    assert_eq!(cells[4 * 80 + 40].ch, '░');
    assert_eq!(cells[23 * 80].ch, '█');
    assert_eq!(cells[11 * 80 + 37].ch, 'D');
    assert_eq!(cells[3 * 80 + 3].ch, '.');
    assert_eq!(cells[3 * 80 + 4].ch, '─');
}

#[test]
fn test_frame_without_ball() {
    let mut g = Grid::new(20, 6, blank());
    let frame = Frame {
        stars: vec![],
        ball_option: 0,
        rays: vec![Spark { x: 1, y: 1, ch: '*', fg: (9, 0, 0) }],
        ball_turn: 0,
        bar_heights: vec![0; 7],
        confetti: vec![],
        logo_lines: vec![],
        logo_color: (1, 2, 3),
    };
    draw_disco(&mut g, &frame);
    assert_eq!(g.get(1, 1).ch, ' ');
    assert_eq!(g.get(10, 4).ch, ' ');
    assert_eq!(g.get(10, 4).bg, (0, 0, 0));
}

#[test]
fn test_frame_on_empty_grid() {
    let mut g = Grid::new(0, 5, blank());
    let frame = Frame {
        stars: vec![],
        ball_option: 1,
        rays: vec![],
        ball_turn: 0,
        bar_heights: vec![],
        confetti: vec![],
        logo_lines: vec![],
        logo_color: (1, 2, 3),
    };
    draw_disco(&mut g, &frame);
    assert_eq!(g.into_cells().len(), 0);
}

#[test]
fn test_star_cell_drawn_on_black() {
    let mut g = Grid::new(10, 4, blank());
    render_stars(&mut g, &vec![star(2, 1, 0.0)]);
    assert_eq!(g.get(2, 1).bg, (0, 0, 0));
    assert_eq!(g.get(2, 1).fg, (50, 50, 65));
    assert_eq!(g.get(3, 1).bg, (9, 9, 9));
}

#[test]
fn test_disco_ball_option_and_rays() {
    let rays = vec![Spark { x: 17, y: 4, ch: '*', fg: (225, 0, 113) }];
    let mut off = Grid::new(30, 10, blank());
    render_disco_ball(&mut off, 0, &rays, 10, 4, 0);
    assert_eq!(off.get(17, 4).ch, ' ');
    assert_eq!(off.get(10, 4).ch, ' ');
    let mut on = Grid::new(30, 10, blank());
    render_disco_ball(&mut on, 1, &rays, 10, 4, 0);
    assert_eq!(on.get(17, 4).ch, '*');
    assert_eq!(on.get(17, 4).fg, (225, 0, 113));
    assert_eq!(on.get(10, 4).ch, '░');
}

fn empty_frame(bars: usize) -> Frame {
    Frame {
        stars: vec![star(1, 1, 0.0)],
        ball_option: 0,
        rays: vec![],
        ball_turn: 0,
        bar_heights: vec![0; bars],
        confetti: vec![],
        logo_lines: vec![],
        logo_color: (1, 2, 3),
    }
}

#[test]
fn test_draw_disco_cells_blackens_whole_slice() {
    let cells = vec![blank(); 4 * 3 + 5];
    let out = draw_disco_cells(cells, 4, 3, &empty_frame(2));
    assert_eq!(out.len(), 17);
    assert!(out.iter().all(|c| c.bg == (0, 0, 0)));
    assert_eq!(out[4 + 1].ch, '.');
    assert_eq!(out[15].ch, ' ');
    assert_eq!(out[15].fg, (1, 2, 3));
}

#[test]
fn test_draw_disco_cells_empty_screen() {
    let cells = vec![blank(); 6];
    let out = draw_disco_cells(cells, 0, 3, &empty_frame(0));
    assert!(out.iter().all(|c| c.bg == (9, 9, 9)));
}

#[test]
fn test_confetti_changes_only_its_cells() {
    let make = |confetti: Vec<Spark>| Frame {
        stars: vec![star(3, 3, 0.0)],
        ball_option: 1,
        rays: vec![Spark { x: 30, y: 8, ch: '+', fg: (9, 0, 0) }],
        ball_turn: 0,
        bar_heights: vec![2; 14],
        confetti,
        logo_lines: vec!["HI".chars().collect()],
        logo_color: (1, 2, 3),
    };
    let confetti = vec![
        Spark { x: 30, y: 8, ch: 'o', fg: (0, 9, 0) }, // over a ray '+'
        Spark { x: 20, y: 4, ch: 'x', fg: (0, 9, 0) }, // on the ball: hidden
        Spark { x: 5, y: 1, ch: '•', fg: (0, 9, 0) },  // blank cell
        Spark { x: 99, y: 99, ch: '*', fg: (0, 9, 0) }, // off the grid
    ];
    let mut with = Grid::new(40, 12, blank());
    let mut without = Grid::new(40, 12, blank());
    draw_disco(&mut with, &make(confetti.clone()));
    draw_disco(&mut without, &make(Vec::new()));
    let mut changed = Vec::new();
    for y in 0..12 {
        for x in 0..40 {
            let (p, q) = (with.get(x, y), without.get(x, y));
            if p.ch != q.ch || p.fg != q.fg || p.bg != q.bg || p.bold != q.bold {
                changed.push((x, y));
                assert!(confetti.iter().any(|s| s.x == x && s.y == y && s.ch == p.ch));
                assert!(matches!(q.ch, ' ' | '─' | '│' | '+' | '.' | '*'));
            }
        }
    }
    assert_eq!(changed, vec![(5, 1), (30, 8)]);
}
