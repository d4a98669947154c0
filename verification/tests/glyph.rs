use ratgames::color::Color;
use ratgames::geometry::{Point, Size};
use ratgames::glyph::{Bitmap8x8, GlyphMask, GlyphSource};


#[test]
fn bitmap8x8_cell_is_eight_tall() {
    assert_eq!(Bitmap8x8.cell_height(), 8);
}

#[test]
fn bitmap_glyph_carries_advance_and_zero_bearing() {
    // The 8×8 source is fixed-pitch: the ink box, advance, and cell all agree,
    // and there is no side bearing — the baseline case for the box/advance split.
    let a = Bitmap8x8.glyph('A');
    assert_eq!(a.width, 8);
    assert_eq!(a.advance, 8, "a full cell of advance");
    assert_eq!(a.x_offset, 0, "no side bearing");
}

#[test]
fn known_glyph_has_ink_and_unknown_is_blank() {
    let a = Bitmap8x8.glyph('A');
    assert_eq!((a.width, a.height), (8, 8));
    assert!(a.on.iter().any(|&b| b), "'A' has ink");

    let unknown = Bitmap8x8.glyph('é'); // outside BASIC_LEGACY's 128 entries
    assert!(unknown.on.iter().all(|&b| !b), "non-ASCII renders blank");
}

#[test]
fn blank_mask_is_all_off_and_get_clamps() {
    let m = GlyphMask::blank(3, 4);
    assert_eq!((m.width, m.height), (3, 4));
    assert!(m.on.iter().all(|&b| !b));
    assert!(!m.get(0, 0));
    assert!(!m.get(99, 99)); // out of bounds -> off, no panic
}

#[test]
fn to_sprite_crops_a_glyph_to_its_ink() {
    // Straight from the 8×8 mask, cropped to ink: a proper X, not a padded,
    // off-centre blob (the reason a single symbol skips BigText layout).
    let red = Color::rgb(0xE0, 0x2C, 0x2C);
    let sprite = Bitmap8x8.glyph('X').to_sprite(red);
    assert_eq!(sprite.size(), Size::new(7, 7)); // trimmed to the X's ink bounds
    assert_eq!(sprite.get(Point::new(0, 0)), red); // top-left arm
    assert_eq!(sprite.get(Point::new(6, 6)), red); // bottom-right arm
    assert_eq!(sprite.get(Point::new(3, 3)), red); // the crossing
    assert!(!sprite.get(Point::new(3, 0)).is_visible()); // gap between the top arms
}

#[test]
fn to_sprite_of_a_blank_mask_is_one_transparent_pixel() {
    let sprite = GlyphMask::blank(8, 8).to_sprite(Color::rgb(1, 2, 3));
    assert_eq!(sprite.size(), Size::new(1, 1));
    assert!(!sprite.get(Point::new(0, 0)).is_visible());
}
