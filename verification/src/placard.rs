//! [`Placard`] — a static sprite parked in the centre of the virtual screen.
//!
//! The still counterpart to [`Marquee`](crate::marquee::Marquee): a placard
//! centres one sprite on both axes and lets the surface clip anything larger
//! than the screen. Whether one is *shown* this frame is the caller's concern.

use vstd::prelude::*;

use crate::geometry::{half_i64, half_toward_zero, Point};
use crate::present::PixelLayer;
use crate::sprite::Sprite;
use crate::surface::Surface;

verus! {

/// The top-left corner that centres `inner` in `outer` on both axes (rounded
/// toward zero; negative when `inner` is larger).
pub open spec fn centred_at(outer_w: int, outer_h: int, inner_w: int, inner_h: int) -> (int, int) {
    (half_toward_zero(outer_w - inner_w), half_toward_zero(outer_h - inner_h))
}

/// A single sprite drawn centred in the screen each frame.
#[derive(Debug)]
pub struct Placard {
    sprite: Sprite,
}

impl Placard {
    #[verifier::type_invariant]
    closed spec fn inv(self) -> bool {
        self.sprite.wf()
    }

    pub closed spec fn spec_sprite(self) -> Sprite {
        self.sprite
    }

    pub fn new(sprite: Sprite) -> (p: Self)
        requires
            sprite.wf(),
        ensures
            p.spec_sprite() == sprite,
    {
        Placard { sprite }
    }

    pub fn sprite(&self) -> (s: &Sprite)
        ensures
            *s == self.spec_sprite(),
    {
        &self.sprite
    }
}

impl PixelLayer for Placard {
    fn render(&self, screen: &mut Surface)
        ensures
            ({
                let at = centred_at(
                    old(screen).dims().w as int,
                    old(screen).dims().h as int,
                    self.spec_sprite().dims().w as int,
                    self.spec_sprite().dims().h as int,
                );
                forall|x: int, y: int| #[trigger]
                    final(screen).dims().holds(x, y) ==> final(screen).at(x, y) == (if self.spec_sprite().cell(
                        x - at.0,
                        y - at.1,
                    ).visible() {
                        self.spec_sprite().cell(x - at.0, y - at.1).spec_packed()
                    } else {
                        old(screen).at(x, y)
                    })
            }),
    {
        proof {
            use_type_invariant(self);
        }
        let s = self.sprite.size();
        let size = screen.size();
        let x = half_i64(size.w as i64 - s.w as i64);
        let y = half_i64(size.h as i64 - s.h as i64);
        screen.draw_sprite(&self.sprite, Point::new(x as i32, y as i32));
    }
}

} // verus!
