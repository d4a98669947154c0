use ratgames::color::Color;
use ratgames::geometry::{Point, Rect, Size};
use ratgames::present::{OverlayLayer, PixelLayer, Presentation};
use ratgames::surface::Surface;

fn presentation(v: Size) -> Presentation {
    Presentation::new(v, Color::rgb(0, 0, 0), Color::rgb(0, 0, 0), 1)
}

#[test]
fn fit_scale_is_integer_and_never_zero() {
    let p = presentation(Size::new(256, 256));
    assert_eq!(p.fit_scale(Size::new(1920, 1080)), 4); // height-bound
    assert_eq!(p.fit_scale(Size::new(768, 768)), 3);
    assert_eq!(p.fit_scale(Size::new(1, 1)), 1);
}

#[test]
fn viewport_centres_the_letterbox() {
    let p = presentation(Size::new(256, 256));
    let vp = p.viewport(Size::new(1920, 1080));
    assert_eq!(vp.size, Size::new(1024, 1024)); // 4x
    assert_eq!(vp.origin, Point::new(448, 28)); // (1920-1024)/2, (1080-1024)/2
}

#[test]
fn render_upscales_pixel_layers_then_calls_overlays() {
    // A 2x2 virtual screen into a 4x4 window: one red pixel at (0,0) should
    // upscale to the top-left 2x2 block; an overlay marks a device pixel.
    struct Dot;
    impl PixelLayer for Dot {
        fn render(&self, screen: &mut Surface) {
            screen.set(Point::new(0, 0), Color::rgb(255, 0, 0));
        }
    }
    struct Mark;
    impl OverlayLayer for Mark {
        fn render(&self, window: &mut Surface, _viewport: Rect) {
            window.set(Point::new(3, 3), Color::rgb(0, 255, 0));
        }
    }

    let mut p = Presentation::new(Size::new(2, 2), Color::rgb(0, 0, 0), Color::rgb(0, 0, 0), 1);
    let mut window = Surface::new(Size::new(4, 4), Color::rgb(0, 0, 0));
    p.render(&[&Dot], &[&Mark], &mut window);

    let word = |x: usize, y: usize| window.as_slice()[y * 4 + x];
    assert_eq!(word(0, 0), Color::rgb(255, 0, 0).packed());
    assert_eq!(word(1, 1), Color::rgb(255, 0, 0).packed());
    assert_eq!(word(2, 0), Color::rgb(0, 0, 0).packed());
    assert_eq!(word(3, 3), Color::rgb(0, 255, 0).packed()); // overlay ran last
}

#[test]
fn the_min_scale_floor_clips_rather_than_shrinks() {
    let p = Presentation::new(Size::new(2, 2), Color::rgb(0, 0, 0), Color::rgb(0, 0, 0), 2);
    // A 3×3 window fits the 2×2 screen only at 1×; the floor holds 2×.
    assert_eq!(p.fit_scale(Size::new(3, 3)), 2);
    assert_eq!(p.viewport(Size::new(3, 3)), Rect::new(Point::new(0, 0), Size::new(4, 4)));
    // Where more fits, the fit wins.
    assert_eq!(p.fit_scale(Size::new(8, 6)), 3);
    // A zero floor reads as one.
    let q = Presentation::new(Size::new(2, 2), Color::rgb(0, 0, 0), Color::rgb(0, 0, 0), 0);
    assert_eq!(q.fit_scale(Size::new(1, 1)), 1);
}
