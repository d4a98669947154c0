//! Composition: the two layer traits and the [`Presentation`] that drives a
//! frame.
//!
//! * [`PixelLayer`] draws into the low-resolution **virtual screen**; it is
//!   later upscaled by an integer factor, so it stays crisp.
//! * [`OverlayLayer`] draws into the **window** in device pixels, *after* the
//!   upscale — content that must not be pixel-scaled.

use vstd::prelude::*;

use crate::color::Color;
use crate::geometry::{Point, Rect, Size};
use crate::surface::{upscale_word, Surface};

verus! {

/// Draws into the virtual screen (pixel-art space). A layer keeps the screen
/// well formed and its size unchanged.
pub trait PixelLayer {
    fn render(&self, screen: &mut Surface)
        requires
            old(screen).wf(),
        ensures
            final(screen).wf(),
            final(screen).dims() == old(screen).dims(),
    ;
}

/// Draws into the window (device space), composited after the upscale.
/// `viewport` is the letterboxed rect the virtual screen occupies.
pub trait OverlayLayer {
    fn render(&self, window: &mut Surface, viewport: Rect)
        requires
            old(window).wf(),
        ensures
            final(window).wf(),
            final(window).dims() == old(window).dims(),
    ;
}

/// The upscale floor `m`, a zero floor read as one.
pub open spec fn floor_of(m: u32) -> u32 {
    if m == 0 { 1 } else { m }
}

/// The largest integer scale at which `v` fits `window`, but never below the
/// crisp-clip floor `m` (below it the screen clips rather than shrinks).
pub open spec fn spec_fit_scale(v: Size, window: Size, m: u32) -> u32 {
    let sx = window.w / v.w;
    let sy = window.h / v.h;
    let fit = if sx < sy { sx } else { sy };
    if fit < floor_of(m) { floor_of(m) } else { fit }
}

/// The rect `v` upscaled by its fit scale occupies in `window`: centred where
/// it fits, pinned to the top-left edge where it clips.
pub open spec fn spec_viewport(v: Size, window: Size, m: u32) -> Rect {
    let s = spec_fit_scale(v, window, m);
    let w = (v.w * s) as u32;
    let h = (v.h * s) as u32;
    Rect {
        origin: Point {
            x: (if window.w >= w { (window.w - w) / 2 } else { 0 }) as i32,
            y: (if window.h >= h { (window.h - h) / 2 } else { 0 }) as i32,
        },
        size: Size { w, h },
    }
}

/// Owns the scratch virtual screen and composites a frame:
/// clear → pixel layers → integer upscale + letterbox → overlay layers.
#[derive(Debug)]
pub struct Presentation {
    screen: Surface,
    backdrop: Color,
    letterbox: Color,
    min_scale: u32,
}

impl Presentation {
    /// The virtual screen as the last frame left it.
    pub closed spec fn screen(self) -> Surface {
        self.screen
    }

    pub closed spec fn spec_backdrop(self) -> Color {
        self.backdrop
    }

    pub closed spec fn spec_letterbox(self) -> Color {
        self.letterbox
    }

    /// The crisp-clip floor of the upscale.
    pub closed spec fn spec_min_scale(self) -> u32 {
        self.min_scale
    }

    /// The invariant: a well-formed virtual screen, which the floor scale
    /// still measures in `u32` pixels.
    pub closed spec fn wf(self) -> bool {
        &&& self.screen.wf()
        &&& self.screen.dims().w * floor_of(self.min_scale) <= u32::MAX
        &&& self.screen.dims().h * floor_of(self.min_scale) <= u32::MAX
    }

    /// A presentation with a `virtual_size` screen cleared to `backdrop`,
    /// `letterbox` around the upscaled screen, and `min_scale` as the upscale's
    /// crisp-clip floor (a zero floor reads as one).
    pub fn new(virtual_size: Size, backdrop: Color, letterbox: Color, min_scale: u32) -> (p: Self)
        requires
            virtual_size.w * virtual_size.h <= usize::MAX,
            virtual_size.w * floor_of(min_scale) <= u32::MAX,
            virtual_size.h * floor_of(min_scale) <= u32::MAX,
        ensures
            p.wf(),
            p.screen().dims() == virtual_size,
            p.spec_backdrop() == backdrop,
            p.spec_letterbox() == letterbox,
            p.spec_min_scale() == min_scale,
    {
        Presentation { screen: Surface::new(virtual_size, backdrop), backdrop, letterbox, min_scale }
    }

    /// The virtual screen's size.
    pub fn virtual_size(&self) -> (s: Size)
        requires
            self.wf(),
        ensures
            s == self.screen().dims(),
    {
        self.screen.size()
    }

    /// The largest integer scale at which the virtual screen fits `window`,
    /// held at the crisp-clip floor where the screen no longer fits: below
    /// it the screen clips rather than shrinks. Integer-only is the
    /// crisp-pixels contract.
    pub fn fit_scale(&self, window: Size) -> (s: u32)
        requires
            self.wf(),
            self.screen().dims().w > 0,
            self.screen().dims().h > 0,
        ensures
            s == spec_fit_scale(self.screen().dims(), window, self.spec_min_scale()),
    {
        let v = self.screen.size();
        let sx = window.w / v.w;
        let sy = window.h / v.h;
        let fit = if sx < sy {
            sx
        } else {
            sy
        };
        let floor = if self.min_scale == 0 {
            1
        } else {
            self.min_scale
        };
        if fit < floor {
            floor
        } else {
            fit
        }
    }

    /// The rect the upscaled screen occupies in `window`: centred where it
    /// fits, from the top-left corner where the floor makes it clip.
    pub fn viewport(&self, window: Size) -> (r: Rect)
        requires
            self.wf(),
            self.screen().dims().w > 0,
            self.screen().dims().h > 0,
        ensures
            r == spec_viewport(self.screen().dims(), window, self.spec_min_scale()),
            r.size.w == self.screen().dims().w * spec_fit_scale(
                self.screen().dims(),
                window,
                self.spec_min_scale(),
            ),
            r.size.h == self.screen().dims().h * spec_fit_scale(
                self.screen().dims(),
                window,
                self.spec_min_scale(),
            ),
    {
        let v = self.screen.size();
        let scale = self.fit_scale(window);
        let ghost floor = floor_of(self.min_scale);
        proof {
            let (vw, vh, ww, wh, s) = (v.w as int, v.h as int, window.w as int, window.h as int, scale as int);
            let fl = floor as int;
            if s != fl {
                vstd::arithmetic::div_mod::lemma_fundamental_div_mod(ww, vw);
                vstd::arithmetic::div_mod::lemma_fundamental_div_mod(wh, vh);
                let (qx, qy) = (ww / vw, wh / vh);
                assert(vw * s <= vw * qx) by (nonlinear_arith)
                    requires
                        vw > 0,
                        s <= qx,
                ;
                assert(vh * s <= vh * qy) by (nonlinear_arith)
                    requires
                        vh > 0,
                        s <= qy,
                ;
                assert(0 <= ww % vw && 0 <= wh % vh);
            }
        }
        let w = v.w * scale;
        let h = v.h * scale;
        let x: u32 = if window.w >= w {
            (window.w - w) / 2
        } else {
            0
        };
        let y: u32 = if window.h >= h {
            (window.h - h) / 2
        } else {
            0
        };
        Rect::new(Point::new(x as i32, y as i32), Size::new(w, h))
    }

    /// Render one frame into `window`: clear the virtual screen, draw `world`
    /// into it in order, letterbox the window, upscale the screen into the
    /// viewport, then draw `overlays` in order.
    pub fn render(
        &mut self,
        world: &[&dyn PixelLayer],
        overlays: &[&dyn OverlayLayer],
        window: &mut Surface,
    )
        requires
            old(self).wf(),
            old(self).screen().dims().w > 0,
            old(self).screen().dims().h > 0,
            old(window).wf(),
        ensures
            final(self).wf(),
            final(self).screen().dims() == old(self).screen().dims(),
            final(self).spec_backdrop() == old(self).spec_backdrop(),
            final(self).spec_letterbox() == old(self).spec_letterbox(),
            final(self).spec_min_scale() == old(self).spec_min_scale(),
            final(window).wf(),
            final(window).dims() == old(window).dims(),
            world@.len() == 0 ==> forall|x: int, y: int| #[trigger]
                final(self).screen().dims().holds(x, y) ==> final(self).screen().at(x, y) == old(
                    self,
                ).spec_backdrop().spec_packed(),
            overlays@.len() == 0 ==> forall|x: int, y: int| #[trigger]
                final(window).dims().holds(x, y) ==> final(window).at(x, y) == upscale_word(
                    old(self).spec_letterbox().spec_packed(),
                    x,
                    y,
                    final(self).screen(),
                    spec_fit_scale(old(self).screen().dims(), old(window).dims(), old(self).spec_min_scale()),
                    spec_viewport(old(self).screen().dims(), old(window).dims(), old(self).spec_min_scale()).origin,
                ),
    {
        self.screen.fill(self.backdrop);
        let mut i: usize = 0;
        while i < world.len()
            invariant
                self.screen.wf(),
                self.screen.dims() == old(self).screen.dims(),
                self.backdrop == old(self).backdrop,
                self.letterbox == old(self).letterbox,
                self.min_scale == old(self).min_scale,
                world@.len() == 0 ==> forall|x: int, y: int| #[trigger]
                    self.screen.dims().holds(x, y) ==> self.screen.at(x, y)
                        == self.backdrop.spec_packed(),
            decreases world@.len() - i,
        {
            world[i].render(&mut self.screen);
            i += 1;
        }
        let wsize = window.size();
        let viewport = self.viewport(wsize);
        let scale = self.fit_scale(wsize);
        window.fill(self.letterbox);
        window.draw_upscaled(&self.screen, scale, viewport.origin);
        let mut j: usize = 0;
        while j < overlays.len()
            invariant
                window.wf(),
                window.dims() == old(window).dims(),
                j <= overlays@.len(),
                overlays@.len() == 0 ==> forall|x: int, y: int| #[trigger]
                    window.dims().holds(x, y) ==> window.at(x, y) == upscale_word(
                        self.letterbox.spec_packed(),
                        x,
                        y,
                        self.screen,
                        scale,
                        viewport.origin,
                    ),
            decreases overlays@.len() - j,
        {
            overlays[j].render(window, viewport);
            j += 1;
        }
    }
}

} // verus!
