use ratgames::color::Color;
use ratgames::geometry::{Point, Rect, Size};
use ratgames::sprite::Sprite;
use ratgames::surface::{visible_blocks, BlitOptions, QuarterTurns, SpriteTransform, Surface};

fn word_at(s: &Surface, x: u32, y: u32) -> u32 {
    s.as_slice()[y as usize * s.size().w as usize + x as usize]
}

#[test]
fn fill_and_set_and_transparency() {
    let bg = Color::rgb(0, 0, 0);
    let mut s = Surface::new(Size::new(2, 2), bg);
    assert_eq!(word_at(&s, 0, 0), bg.packed());

    let red = Color::rgb(255, 0, 0);
    s.set(Point::new(1, 1), red);
    assert_eq!(word_at(&s, 1, 1), red.packed());

    // Transparent write is ignored; so is out of bounds.
    s.set(Point::new(0, 0), Color::transparent());
    assert_eq!(word_at(&s, 0, 0), bg.packed());
    s.set(Point::new(9, 9), red); // must not panic
}

#[test]
fn draw_sprite_composites_and_clips() {
    let mut s = Surface::new(Size::new(3, 3), Color::rgb(0, 0, 0));
    let mut spr = Sprite::new(Size::new(2, 2));
    let red = Color::rgb(255, 0, 0);
    spr.set(Point::new(0, 0), red); // rest transparent
    // Place straddling the bottom-right corner: only (2,2) lands.
    s.draw_sprite(&spr, Point::new(2, 2));
    assert_eq!(word_at(&s, 2, 2), red.packed());
    assert_eq!(word_at(&s, 0, 0), Color::rgb(0, 0, 0).packed());
}

#[test]
fn draw_upscaled_expands_each_pixel_to_a_block() {
    let mut src = Surface::new(Size::new(2, 1), Color::rgb(0, 0, 0));
    let red = Color::rgb(255, 0, 0);
    src.set(Point::new(0, 0), red);

    let mut dst = Surface::new(Size::new(4, 2), Color::rgb(0, 0, 0));
    dst.draw_upscaled(&src, 2, Point::origin());

    // The red source pixel becomes the top-left 2x2 block.
    for (x, y) in [(0, 0), (1, 0), (0, 1), (1, 1)] {
        assert_eq!(word_at(&dst, x, y), red.packed());
    }
    // The transparent-black source pixel becomes the next 2x2 block.
    assert_eq!(word_at(&dst, 2, 0), Color::rgb(0, 0, 0).packed());
}

#[test]
fn draw_sprite_scaled_blocks_and_skips_transparent() {
    let mut spr = Sprite::new(Size::new(2, 1));
    let red = Color::rgb(255, 0, 0);
    spr.set(Point::new(0, 0), red); // (1,0) stays transparent
    let bg = Color::rgb(0, 0, 0);
    let mut s = Surface::new(Size::new(4, 2), bg);
    s.draw_sprite_scaled(&spr, 2, Point::origin());

    // The opaque pixel becomes a 2x2 block.
    for (x, y) in [(0, 0), (1, 0), (0, 1), (1, 1)] {
        assert_eq!(word_at(&s, x, y), red.packed());
    }
    // The transparent pixel's block is left untouched.
    assert_eq!(word_at(&s, 2, 0), bg.packed());
    assert_eq!(word_at(&s, 3, 1), bg.packed());
}

#[test]
fn draw_sprite_silhouette_recolours_opaque_pixels() {
    let mut spr = Sprite::new(Size::new(2, 1));
    spr.set(Point::new(0, 0), Color::rgb(255, 0, 0)); // opaque; (1,0) transparent
    let bg = Color::rgb(0, 0, 0);
    let yellow = Color::rgb(255, 255, 0);
    let mut s = Surface::new(Size::new(4, 2), bg);
    s.draw_sprite_silhouette(&spr, 2, Point::origin(), yellow);

    // The opaque pixel's block is drawn in the silhouette colour, not red.
    assert_eq!(word_at(&s, 0, 0), yellow.packed());
    assert_eq!(word_at(&s, 1, 1), yellow.packed());
    // The transparent pixel stays background.
    assert_eq!(word_at(&s, 2, 0), bg.packed());
}

#[test]
fn draw_sprite_scaled_clips_at_the_edge() {
    let mut spr = Sprite::new(Size::new(2, 2));
    let red = Color::rgb(255, 0, 0);
    for y in 0..2 {
        for x in 0..2 {
            spr.set(Point::new(x, y), red);
        }
    }
    let mut s = Surface::new(Size::new(3, 3), Color::rgb(0, 0, 0));
    // A 2x block at (2,2): only the corner block's top-left lands; the rest
    // clips off the right/bottom edges without panicking.
    s.draw_sprite_scaled(&spr, 2, Point::new(2, 2));
    assert_eq!(word_at(&s, 2, 2), red.packed());
}

#[test]
fn fill_rect_clips_to_bounds() {
    let mut s = Surface::new(Size::new(3, 3), Color::rgb(0, 0, 0));
    let red = Color::rgb(255, 0, 0);
    s.fill_rect(Rect::new(Point::new(2, 2), Size::new(5, 5)), red);
    assert_eq!(word_at(&s, 2, 2), red.packed());
    assert_eq!(word_at(&s, 0, 0), Color::rgb(0, 0, 0).packed());
}

#[test]
fn rect_outline_draws_edges_not_interior() {
    let mut s = Surface::new(Size::new(5, 5), Color::rgb(0, 0, 0));
    let blue = Color::rgb(0, 0, 255);
    s.draw_rect_outline(Rect::from_size(Size::new(5, 5)), blue, 1);
    assert_eq!(word_at(&s, 0, 0), blue.packed()); // corner
    assert_eq!(word_at(&s, 2, 0), blue.packed()); // top edge
    assert_eq!(word_at(&s, 2, 2), Color::rgb(0, 0, 0).packed()); // interior untouched
}

#[test]
fn blend_composites_by_coverage() {
    let mut s = Surface::new(Size::new(1, 1), Color::rgb(0, 0, 0));
    let white = Color::rgb(255, 255, 255);
    s.blend(Point::origin(), white, 0);
    assert_eq!(word_at(&s, 0, 0), 0); // no-op
    s.blend(Point::origin(), white, 128);
    assert_eq!(word_at(&s, 0, 0), 0x0080_8080); // ~50% over black
    s.blend(Point::origin(), white, 255);
    assert_eq!(word_at(&s, 0, 0), 0x00FF_FFFF); // full
}

#[test]
fn blend_rect_composites_a_region_by_the_colour_alpha_and_clips() {
    let mut s = Surface::new(Size::new(3, 3), Color::rgb(0, 0, 0));
    let white_half = Color::argb(128, 255, 255, 255);
    // A 2x2 region at (1,1) that overruns the bottom-right: it clips, no panic.
    s.blend_rect(Rect::new(Point::new(1, 1), Size::new(5, 5)), white_half);
    assert_eq!(word_at(&s, 1, 1), 0x0080_8080); // ~50% white over black
    assert_eq!(word_at(&s, 2, 2), 0x0080_8080);
    assert_eq!(word_at(&s, 0, 0), Color::rgb(0, 0, 0).packed()); // outside untouched
}

#[test]
fn blend_rect_is_a_noop_at_zero_alpha() {
    let bg = Color::rgb(10, 20, 30);
    let mut s = Surface::new(Size::new(2, 2), bg);
    s.blend_rect(
        Rect::from_size(Size::new(2, 2)),
        Color::argb(0, 255, 255, 255),
    );
    assert_eq!(word_at(&s, 0, 0), bg.packed()); // a fully-transparent wash draws nothing
}

#[test]
fn blend_rect_at_full_alpha_replaces_the_region() {
    let mut s = Surface::new(Size::new(2, 2), Color::rgb(0, 0, 0));
    s.blend_rect(
        Rect::from_size(Size::new(2, 2)),
        Color::argb(255, 255, 0, 0),
    );
    assert_eq!(word_at(&s, 0, 0), Color::rgb(255, 0, 0).packed());
    assert_eq!(word_at(&s, 1, 1), Color::rgb(255, 0, 0).packed());
}

// ---- draw_sprite_ex ----

/// A 3×2 sprite of six distinct colours:
/// ```text
///   A B C
///   D E F
/// ```
fn abcdef() -> (Sprite, [Color; 6]) {
    let colors = [
        Color::rgb(10, 0, 0),
        Color::rgb(20, 0, 0),
        Color::rgb(30, 0, 0),
        Color::rgb(40, 0, 0),
        Color::rgb(50, 0, 0),
        Color::rgb(60, 0, 0),
    ];
    let mut spr = Sprite::new(Size::new(3, 2));
    for (i, &c) in colors.iter().enumerate() {
        spr.set(Point::new((i % 3) as i32, (i / 3) as i32), c);
    }
    (spr, colors)
}

/// Assert the surface holds `expected` (a row-major grid `cols` wide) at
/// the origin.
fn assert_grid(s: &Surface, cols: u32, expected: &[Color]) {
    for (i, &c) in expected.iter().enumerate() {
        let (x, y) = (i as u32 % cols, i as u32 / cols);
        assert_eq!(word_at(s, x, y), c.packed(), "at ({x},{y})");
    }
}

#[test]
fn ex_default_options_match_draw_sprite() {
    let (spr, _) = abcdef();
    let bg = Color::rgb(0, 0, 0);
    let mut plain = Surface::new(Size::new(4, 3), bg);
    let mut ex = Surface::new(Size::new(4, 3), bg);
    plain.draw_sprite(&spr, Point::new(1, 1));
    ex.draw_sprite_ex(&spr, Point::new(1, 1), BlitOptions::default());
    assert_eq!(plain.as_slice(), ex.as_slice());
}

#[test]
fn ex_region_draws_only_the_subrect() {
    let (spr, c) = abcdef();
    let mut s = Surface::new(Size::new(2, 2), Color::rgb(0, 0, 0));
    s.draw_sprite_ex(
        &spr,
        Point::origin(),
        BlitOptions {
            region: Some(Rect::new(Point::new(1, 0), Size::new(2, 2))),
            ..BlitOptions::default()
        },
    );
    // B C / E F.
    assert_grid(&s, 2, &[c[1], c[2], c[4], c[5]]);
}

#[test]
fn ex_scale_expands_each_pixel_into_blocks() {
    let (spr, c) = abcdef();
    let mut s = Surface::new(Size::new(2, 2), Color::rgb(0, 0, 0));
    s.draw_sprite_ex(
        &spr,
        Point::origin(),
        BlitOptions {
            region: Some(Rect::new(Point::origin(), Size::new(1, 1))),
            scale: 2,
            ..BlitOptions::default()
        },
    );
    assert_grid(&s, 2, &[c[0], c[0], c[0], c[0]]);
}

#[test]
fn ex_flip_x_mirrors_horizontally() {
    let (spr, c) = abcdef();
    let mut s = Surface::new(Size::new(3, 2), Color::rgb(0, 0, 0));
    s.draw_sprite_ex(
        &spr,
        Point::origin(),
        BlitOptions {
            flip_x: true,
            ..BlitOptions::default()
        },
    );
    // C B A / F E D.
    assert_grid(&s, 3, &[c[2], c[1], c[0], c[5], c[4], c[3]]);
}

#[test]
fn ex_flip_y_mirrors_vertically() {
    let (spr, c) = abcdef();
    let mut s = Surface::new(Size::new(3, 2), Color::rgb(0, 0, 0));
    s.draw_sprite_ex(
        &spr,
        Point::origin(),
        BlitOptions {
            flip_y: true,
            ..BlitOptions::default()
        },
    );
    // D E F / A B C.
    assert_grid(&s, 3, &[c[3], c[4], c[5], c[0], c[1], c[2]]);
}

#[test]
fn ex_quarter_turn_rotates_clockwise() {
    let (spr, c) = abcdef();
    let mut s = Surface::new(Size::new(2, 3), Color::rgb(0, 0, 0));
    s.draw_sprite_ex(
        &spr,
        Point::origin(),
        BlitOptions {
            turns: QuarterTurns::Quarter,
            ..BlitOptions::default()
        },
    );
    // D A / E B / F C.
    assert_grid(&s, 2, &[c[3], c[0], c[4], c[1], c[5], c[2]]);
}

#[test]
fn ex_half_turn_rotates_180() {
    let (spr, c) = abcdef();
    let mut s = Surface::new(Size::new(3, 2), Color::rgb(0, 0, 0));
    s.draw_sprite_ex(
        &spr,
        Point::origin(),
        BlitOptions {
            turns: QuarterTurns::Half,
            ..BlitOptions::default()
        },
    );
    // F E D / C B A.
    assert_grid(&s, 3, &[c[5], c[4], c[3], c[2], c[1], c[0]]);
}

#[test]
fn ex_three_quarter_turn_rotates_counter_clockwise() {
    let (spr, c) = abcdef();
    let mut s = Surface::new(Size::new(2, 3), Color::rgb(0, 0, 0));
    s.draw_sprite_ex(
        &spr,
        Point::origin(),
        BlitOptions {
            turns: QuarterTurns::ThreeQuarters,
            ..BlitOptions::default()
        },
    );
    // C F / B E / A D.
    assert_grid(&s, 2, &[c[2], c[5], c[1], c[4], c[0], c[3]]);
}

#[test]
fn ex_mirror_applies_before_the_turn() {
    let (spr, c) = abcdef();
    let mut s = Surface::new(Size::new(2, 3), Color::rgb(0, 0, 0));
    s.draw_sprite_ex(
        &spr,
        Point::origin(),
        BlitOptions {
            flip_x: true,
            turns: QuarterTurns::Quarter,
            ..BlitOptions::default()
        },
    );
    // Mirror first (C B A / F E D), then 90° CW: F C / E B / D A.
    // (Turning first and mirroring after would read A D / B E / C F.)
    assert_grid(&s, 2, &[c[5], c[2], c[4], c[1], c[3], c[0]]);
}

#[test]
fn ex_transparent_pixels_are_skipped() {
    let mut spr = Sprite::new(Size::new(2, 1));
    let red = Color::rgb(255, 0, 0);
    spr.set(Point::origin(), red); // (1,0) stays transparent
    let bg = Color::rgb(1, 2, 3);
    let mut s = Surface::new(Size::new(2, 1), bg);
    s.draw_sprite_ex(
        &spr,
        Point::origin(),
        BlitOptions {
            flip_x: true,
            ..BlitOptions::default()
        },
    );
    // Mirrored: the transparent cell lands at x=0, the red one at x=1.
    assert_eq!(word_at(&s, 0, 0), bg.packed());
    assert_eq!(word_at(&s, 1, 0), red.packed());
}

#[test]
fn ex_clips_at_the_edges_without_panicking() {
    let (spr, c) = abcdef();
    let mut s = Surface::new(Size::new(2, 2), Color::rgb(0, 0, 0));
    s.draw_sprite_ex(&spr, Point::new(-1, -1), BlitOptions::default());
    // Only the sprite's inner cells land: (0,0) shows E — source (1,1).
    assert_eq!(word_at(&s, 0, 0), c[4].packed());
    assert_eq!(word_at(&s, 1, 0), c[5].packed());
}

#[test]
fn ex_a_region_past_the_sprite_is_clamped() {
    let (spr, c) = abcdef();
    let bg = Color::rgb(0, 0, 0);
    let mut s = Surface::new(Size::new(4, 2), bg);
    s.draw_sprite_ex(
        &spr,
        Point::origin(),
        BlitOptions {
            region: Some(Rect::new(Point::new(2, 0), Size::new(2, 1))),
            ..BlitOptions::default()
        },
    );
    // The 2-wide region clamps to the sheet's last real column.
    assert_eq!(word_at(&s, 0, 0), c[2].packed()); // C
    assert_eq!(word_at(&s, 1, 0), bg.packed()); // clamped away: nothing
}

#[test]
fn ex_a_region_fully_outside_draws_nothing() {
    let (spr, _) = abcdef();
    let bg = Color::rgb(0, 0, 0);
    let mut s = Surface::new(Size::new(2, 2), bg);
    s.draw_sprite_ex(
        &spr,
        Point::origin(),
        BlitOptions {
            region: Some(Rect::new(Point::new(10, 10), Size::new(2, 2))),
            ..BlitOptions::default()
        },
    );
    assert_eq!(word_at(&s, 0, 0), bg.packed());
}

#[test]
fn ex_zero_scale_draws_nothing() {
    let (spr, _) = abcdef();
    let bg = Color::rgb(0, 0, 0);
    let mut s = Surface::new(Size::new(3, 2), bg);
    s.draw_sprite_ex(
        &spr,
        Point::origin(),
        BlitOptions {
            scale: 0,
            ..BlitOptions::default()
        },
    );
    // An explicit no-op, not a silent coercion to 1.
    assert_eq!(word_at(&s, 0, 0), bg.packed());
    assert_eq!(word_at(&s, 2, 1), bg.packed());
}

#[test]
fn ex_scaled_blocks_clip_partially_at_the_edges() {
    // A 1×1 region at scale 3, placed at (-1,-1): only the block's inner
    // 2×2 corner is on-screen — the span clipping must trim it exactly.
    let (spr, c) = abcdef();
    let bg = Color::rgb(0, 0, 0);
    let mut s = Surface::new(Size::new(3, 3), bg);
    s.draw_sprite_ex(
        &spr,
        Point::new(-1, -1),
        BlitOptions {
            region: Some(Rect::new(Point::origin(), Size::new(1, 1))),
            scale: 3,
            ..BlitOptions::default()
        },
    );
    assert_grid(&s, 3, &[c[0], c[0], bg, c[0], c[0], bg, bg, bg, bg]);
}

#[test]
fn ex_tint_draws_a_silhouette_through_the_transform() {
    let (spr, _) = abcdef();
    let bg = Color::rgb(0, 0, 0);
    let yellow = Color::rgb(255, 255, 0);
    let mut s = Surface::new(Size::new(3, 2), bg);
    s.draw_sprite_ex(
        &spr,
        Point::origin(),
        BlitOptions {
            flip_x: true,
            tint: Some(yellow),
            ..BlitOptions::default()
        },
    );
    // Every opaque pixel lands in the tint, whatever its own colour.
    assert_grid(&s, 3, &[yellow; 6]);
}

#[test]
fn transform_swaps_output_size_only_on_quarter_turns() {
    let region = Size::new(3, 2);
    for (turns, expected) in [
        (QuarterTurns::Upright, Size::new(3, 2)),
        (QuarterTurns::Quarter, Size::new(2, 3)),
        (QuarterTurns::Half, Size::new(3, 2)),
        (QuarterTurns::ThreeQuarters, Size::new(2, 3)),
    ] {
        let options = BlitOptions {
            turns,
            ..BlitOptions::default()
        };
        let t = SpriteTransform::new(region, &options);
        assert_eq!(t.out_size, expected, "{turns:?}");
        assert_eq!(
            t.swaps_axes,
            matches!(turns, QuarterTurns::Quarter | QuarterTurns::ThreeQuarters)
        );
    }
}

#[test]
fn visible_blocks_clips_both_ends() {
    // Blocks of 2 starting at -3: block 0 spans [-3,-1) (out), block 1
    // spans [-1,1) (partly in) … block 4 spans [5,7) but the limit is 6.
    assert_eq!(visible_blocks(-3, 2, 10, 6), 1..5);
    // Fully left / fully right of the surface: empty.
    assert_eq!(visible_blocks(-20, 2, 5, 6), 5..5);
    assert_eq!(visible_blocks(9, 2, 5, 6), 0..0);
}
