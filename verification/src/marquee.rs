//! [`Marquee`] — scrolls a sprite strip horizontally, wrapping seamlessly.
//!
//! Deliberately content-agnostic: it scrolls *a sprite*, not "text". The
//! big-text banner is one such sprite, but so is any pre-baked strip.

use vstd::prelude::*;

use crate::color::Color;
use crate::geometry::{half_i64, half_toward_zero};
use crate::present::PixelLayer;
use crate::sprite::Sprite;
use crate::surface::Surface;

verus! {

/// The scroll period of a strip `w` wide: its width, at least 1.
pub open spec fn period(w: u32) -> int {
    if w == 0 {
        1
    } else {
        w as int
    }
}

/// The word pixel `(x, y)` holds after a strip scrolled by `offset` is drawn
/// over `prev` on a screen `screen_h` tall: the strip is centred vertically
/// (rounded toward zero) and repeats horizontally with its period; transparent
/// strip pixels leave `prev`.
pub open spec fn marquee_word(prev: u32, x: int, y: int, strip: Sprite, offset: int, screen_h: int) -> u32 {
    let top = half_toward_zero(screen_h - strip.dims().h);
    let sy = y - top;
    if 0 <= sy < strip.dims().h {
        let c = strip.cell((x + offset) % period(strip.dims().w), sy);
        if c.visible() {
            c.spec_packed()
        } else {
            prev
        }
    } else {
        prev
    }
}

/// A sprite scrolled leftward across the screen, repeating with wrap-around.
#[derive(Debug)]
pub struct Marquee {
    sprite: Sprite,
    offset: u32,
    speed: u32,
}

impl Marquee {
    #[verifier::type_invariant]
    closed spec fn inv(self) -> bool {
        self.sprite.wf() && self.offset < period(self.sprite.dims().w)
    }

    pub closed spec fn spec_sprite(self) -> Sprite {
        self.sprite
    }

    pub closed spec fn spec_offset(self) -> u32 {
        self.offset
    }

    pub closed spec fn spec_speed(self) -> u32 {
        self.speed
    }

    /// Scroll `sprite` by `speed` virtual pixels per [`advance`](Self::advance).
    pub fn new(sprite: Sprite, speed: u32) -> (m: Self)
        requires
            sprite.wf(),
        ensures
            m.spec_sprite() == sprite,
            m.spec_offset() == 0,
            m.spec_speed() == speed,
    {
        Marquee { sprite, offset: 0, speed }
    }

    /// Step the scroll by one frame, wrapping modulo the strip's width.
    pub fn advance(&mut self)
        requires
            old(self).spec_offset() + old(self).spec_speed() <= u32::MAX,
        ensures
            final(self).spec_sprite() == old(self).spec_sprite(),
            final(self).spec_speed() == old(self).spec_speed(),
            final(self).spec_offset() == (old(self).spec_offset() + old(self).spec_speed()) % period(
                old(self).spec_sprite().dims().w,
            ),
    {
        proof {
            use_type_invariant(&*self);
        }
        let w = self.sprite.size().w;
        let p: u32 = if w == 0 {
            1
        } else {
            w
        };
        self.offset = (self.offset + self.speed) % p;
    }

    /// The current scroll offset, in strip columns.
    pub fn offset(&self) -> (o: u32)
        ensures
            o == self.spec_offset(),
    {
        self.offset
    }
}

impl PixelLayer for Marquee {
    fn render(&self, screen: &mut Surface)
        ensures
            forall|x: int, y: int| #[trigger]
                final(screen).dims().holds(x, y) ==> final(screen).at(x, y) == marquee_word(
                    old(screen).at(x, y),
                    x,
                    y,
                    self.spec_sprite(),
                    self.spec_offset() as int,
                    old(screen).dims().h as int,
                ),
    {
        proof {
            use_type_invariant(self);
        }
        let strip = self.sprite.size();
        let size = screen.size();
        let p: u64 = if strip.w == 0 {
            1
        } else {
            strip.w as u64
        };
        let top = half_i64(size.h as i64 - strip.h as i64);
        let ghost before = *screen;
        let mut y: u32 = 0;
        while y < size.h
            invariant
                self.sprite.wf(),
                strip == self.sprite.dims(),
                size == before.dims(),
                p == period(strip.w),
                top == half_toward_zero(size.h - strip.h),
                screen.wf(),
                screen.dims() == size,
                y <= size.h,
                forall|px: int, py: int| #[trigger]
                    screen.dims().holds(px, py) ==> screen.at(px, py) == (if py < y {
                        marquee_word(before.at(px, py), px, py, self.sprite, self.offset as int, size.h as int)
                    } else {
                        before.at(px, py)
                    }),
            decreases size.h - y,
        {
            let rel = y as i64 - top;
            if 0 <= rel && rel < strip.h as i64 {
                let sy = rel as u32;
                let mut x: u32 = 0;
                while x < size.w
                    invariant
                        self.sprite.wf(),
                        strip == self.sprite.dims(),
                        size == before.dims(),
                        p == period(strip.w),
                        top == half_toward_zero(size.h - strip.h),
                        screen.wf(),
                        screen.dims() == size,
                        y < size.h,
                        sy < strip.h,
                        sy == y - top,
                        x <= size.w,
                        forall|px: int, py: int| #[trigger]
                            screen.dims().holds(px, py) ==> screen.at(px, py) == (if py < y || (py
                                == y && px < x) {
                                marquee_word(
                                    before.at(px, py),
                                    px,
                                    py,
                                    self.sprite,
                                    self.offset as int,
                                    size.h as int,
                                )
                            } else {
                                before.at(px, py)
                            }),
                    decreases size.w - x,
                {
                    let src = ((x as u64 + self.offset as u64) % p) as u32;
                    let c = if src < strip.w {
                        self.sprite.read(src, sy)
                    } else {
                        Color::transparent()
                    };
                    if c.is_visible() {
                        screen.put(x, y, c.packed());
                    }
                    x += 1;
                }
            }
            y += 1;
        }
    }
}

/// Law: the strip rides centred on the screen. On a screen at least as tall
/// as the strip, the band starts `top` rows down with `top` the larger whole
/// number no more than half the spare height (so the rows left below the
/// band are `top` or `top + 1`); a row in the band shows strip row `y - top`
/// at the column the scroll brings under `x`, wrapping with the strip's
/// width, where that strip pixel is opaque, and every other pixel keeps what
/// was drawn before.
pub proof fn law_the_band_is_centred(
    prev: u32,
    x: int,
    y: int,
    strip: Sprite,
    offset: int,
    screen_h: int,
    top: int,
)
    requires
        0 <= strip.dims().h <= screen_h,
        2 * top <= screen_h - strip.dims().h <= 2 * top + 1,
    ensures
        !(top <= y < top + strip.dims().h) ==> marquee_word(prev, x, y, strip, offset, screen_h)
            == prev,
        top <= y < top + strip.dims().h ==> marquee_word(prev, x, y, strip, offset, screen_h) == ({
            let c = strip.cell((x + offset) % period(strip.dims().w), y - top);
            if c.visible() {
                c.spec_packed()
            } else {
                prev
            }
        }),
{
    assert(half_toward_zero(screen_h - strip.dims().h) == top);
}

} // verus!
