use ratgames::color::Color;
use ratgames::geometry::{Point, Size};
use ratgames::marquee::Marquee;
use ratgames::placard::Placard;
use ratgames::present::PixelLayer;
use ratgames::sprite::Sprite;
use ratgames::surface::Surface;

const INK: Color = Color(0xFF0A_141E); // Color::rgb(10, 20, 30)

fn block(w: u32, h: u32) -> Sprite {
    let mut s = Sprite::new(Size::new(w, h));
    for y in 0..h as i32 {
        for x in 0..w as i32 {
            s.set(Point::new(x, y), INK);
        }
    }
    s
}

#[test]
fn centres_a_smaller_sprite() {
    let p = Placard::new(block(2, 2));
    let mut screen = Surface::new(Size::new(4, 4), Color::rgb(0, 0, 0));
    p.render(&mut screen);

    let word = |x: usize, y: usize| screen.as_slice()[y * 4 + x];
    // centre(4,2) = 1: the 2x2 block lands at (1,1)..(2,2).
    assert_eq!(word(1, 1), INK.packed());
    assert_eq!(word(2, 2), INK.packed());
    assert_eq!(word(0, 0), Color::rgb(0, 0, 0).packed()); // margin untouched
}

#[test]
fn oversized_sprite_clips_without_panic() {
    let p = Placard::new(block(6, 6));
    let mut screen = Surface::new(Size::new(4, 4), Color::rgb(0, 0, 0));
    p.render(&mut screen); // centre offset is negative; must not panic
    // The sprite covers the whole screen after clipping.
    assert!(screen.as_slice().iter().all(|&w| w == INK.packed()));
}
