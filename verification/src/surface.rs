//! [`Surface`] — an owned, blittable pixel buffer.
//!
//! One type backs both the low-resolution virtual screen and the physical
//! window framebuffer, so compositing, sprite blitting, and the integer upscale
//! all live here rather than being re-derived per call site.
//!
//! Every drawing operation is specified pixel by pixel: its contract gives the
//! word each pixel holds afterwards as a function of the word it held before.
//! The implementations walk the clipped destination rectangle once, row-major,
//! and compute each destination pixel straight from that formula.

use crate::color::Color;
use crate::geometry::{mul_u32, lemma_grid_index, lemma_grid_index_injective, Point, Rect, Size};
use crate::sprite::Sprite;
use vstd::prelude::*;

verus! {

/// A rectangular buffer of `0x00RRGGBB` words (framebuffer-ready).
#[derive(Debug, Clone)]
pub struct Surface {
    size: Size,
    buf: Vec<u32>,
}

/// Clockwise quarter-turn rotation for [`Surface::draw_sprite_ex`]. Only right
/// angles exist — pixel art cannot rotate by an arbitrary angle and stay crisp.
#[derive(Debug, Clone, Copy, PartialEq, Eq, Structural)]
pub enum QuarterTurns {
    /// No rotation.
    Upright,
    /// 90° clockwise.
    Quarter,
    /// 180°.
    Half,
    /// 270° clockwise (90° counter-clockwise).
    ThreeQuarters,
}

impl Default for QuarterTurns {
    fn default() -> (t: Self)
        ensures
            t == QuarterTurns::Upright,
    {
        QuarterTurns::Upright
    }
}

/// Options for [`Surface::draw_sprite_ex`]: the source region, mirroring,
/// quarter-turn rotation, integer magnification, and an optional silhouette
/// tint. The default is a plain whole-sprite blit. The region is mirrored
/// first, then turned; each output pixel becomes a `scale × scale` block.
#[derive(Debug, Clone, Copy, PartialEq, Eq, Structural)]
pub struct BlitOptions {
    /// The source sub-rectangle to draw (`None` = the whole sprite), clamped to
    /// the sprite's bounds; a region fully outside draws nothing.
    pub region: Option<Rect>,
    /// Integer magnification; `0` draws nothing.
    pub scale: u32,
    /// Mirror the region horizontally (before rotation).
    pub flip_x: bool,
    /// Mirror the region vertically (before rotation).
    pub flip_y: bool,
    /// Clockwise quarter-turn rotation (after mirroring).
    pub turns: QuarterTurns,
    /// Draw every opaque pixel in this colour instead of its own.
    pub tint: Option<Color>,
}

impl Default for BlitOptions {
    fn default() -> (o: Self)
        ensures
            o == BlitOptions::plain(),
    {
        Self {
            region: None,
            scale: 1,
            flip_x: false,
            flip_y: false,
            turns: QuarterTurns::Upright,
            tint: None,
        }
    }
}

impl BlitOptions {
    /// The default options: the whole sprite, unscaled, untransformed.
    pub open spec fn plain() -> BlitOptions {
        BlitOptions {
            region: None,
            scale: 1,
            flip_x: false,
            flip_y: false,
            turns: QuarterTurns::Upright,
            tint: None,
        }
    }
}

/// `v` clamped into `[lo, hi]`.
pub open spec fn clamp(v: int, lo: int, hi: int) -> int {
    if v < lo {
        lo
    } else if v > hi {
        hi
    } else {
        v
    }
}

/// The source region as `(x0, y0, x1, y1)` after clamping to the sprite.
pub open spec fn region_bounds(sprite: Size, region: Option<Rect>) -> (int, int, int, int) {
    match region {
        None => (0, 0, sprite.w as int, sprite.h as int),
        Some(r) => (
            clamp(r.origin.x as int, 0, sprite.w as int),
            clamp(r.origin.y as int, 0, sprite.h as int),
            clamp(r.origin.x + r.size.w, 0, sprite.w as int),
            clamp(r.origin.y + r.size.h, 0, sprite.h as int),
        ),
    }
}

/// The inverse of a quarter turn, as (swap axes, negate x, negate y): the map
/// from an output pixel back to the source cell it shows.
pub open spec fn turn_inverse(turns: QuarterTurns) -> (bool, bool, bool) {
    match turns {
        QuarterTurns::Upright => (false, false, false),
        QuarterTurns::Quarter => (true, false, true),
        QuarterTurns::Half => (false, true, true),
        QuarterTurns::ThreeQuarters => (true, true, false),
    }
}

/// Whether the blit swaps axes (a 90° or 270° turn).
pub open spec fn swaps(o: BlitOptions) -> bool {
    turn_inverse(o.turns).0
}

/// Whether the source x axis is read mirrored (rotation composed with flip-x).
pub open spec fn neg_x(o: BlitOptions) -> bool {
    turn_inverse(o.turns).1 != o.flip_x
}

/// Whether the source y axis is read mirrored (rotation composed with flip-y).
pub open spec fn neg_y(o: BlitOptions) -> bool {
    turn_inverse(o.turns).2 != o.flip_y
}

/// The word a destination pixel `(x, y)` holds after `draw_sprite_ex`, given
/// the word `prev` it held before.
pub open spec fn ex_word(prev: u32, x: int, y: int, sprite: Sprite, at: Point, o: BlitOptions) -> u32 {
    let (x0, y0, x1, y1) = region_bounds(sprite.dims(), o.region);
    let rw = x1 - x0;
    let rh = y1 - y0;
    let s = o.scale as int;
    let ow = if swaps(o) { rh } else { rw };
    let oh = if swaps(o) { rw } else { rh };
    let dx = x - at.x;
    let dy = y - at.y;
    if s == 0 || rw <= 0 || rh <= 0 || !(0 <= dx < ow * s) || !(0 <= dy < oh * s) {
        prev
    } else {
        let ox = dx / s;
        let oy = dy / s;
        let u = if swaps(o) { oy } else { ox };
        let v = if swaps(o) { ox } else { oy };
        let sx = if neg_x(o) { rw - 1 - u } else { u };
        let sy = if neg_y(o) { rh - 1 - v } else { v };
        let c = sprite.cell(x0 + sx, y0 + sy);
        if !c.visible() {
            prev
        } else {
            match o.tint {
                Some(t) => t.spec_packed(),
                None => c.spec_packed(),
            }
        }
    }
}

/// The word a destination pixel holds after `draw_upscaled(src, scale, dst)`.
pub open spec fn upscale_word(prev: u32, x: int, y: int, src: Surface, scale: u32, dst: Point) -> u32 {
    let s = if scale == 0 { 1int } else { scale as int };
    let dx = x - dst.x;
    let dy = y - dst.y;
    if 0 <= dx < src.dims().w * s && 0 <= dy < src.dims().h * s {
        src.at(dx / s, dy / s)
    } else {
        prev
    }
}

/// The word a destination pixel holds after `fill_rect(rect, color)`.
pub open spec fn rect_word(prev: u32, x: int, y: int, rect: Rect, color: Color) -> u32 {
    if color.visible() && rect.holds(x, y) {
        color.spec_packed()
    } else {
        prev
    }
}

/// One 8-bit channel of a `0x00RRGGBB` word: `k = 2` red, `1` green, `0` blue.
pub open spec fn channel(w: u32, k: int) -> int {
    if k == 2 {
        ((w / 0x1_0000) % 0x100) as int
    } else if k == 1 {
        ((w / 0x100) % 0x100) as int
    } else {
        (w % 0x100) as int
    }
}

/// Source-over mix of one channel at `a/255` coverage, rounded.
pub open spec fn mix(s: int, d: int, a: int) -> int {
    (s * a + d * (255 - a) + 127) / 255
}

/// Source-over composite of `src` onto `dst` (both `0x00RRGGBB`) at `a/255`.
pub open spec fn blended(dst: u32, src: u32, a: int) -> int {
    mix(channel(src, 2), channel(dst, 2), a) * 0x1_0000 + mix(channel(src, 1), channel(dst, 1), a)
        * 0x100 + mix(channel(src, 0), channel(dst, 0), a)
}

/// The word a destination pixel holds after `blend_rect(rect, color)`.
pub open spec fn blend_rect_word(prev: u32, x: int, y: int, rect: Rect, color: Color) -> u32 {
    if color.spec_alpha() != 0 && rect.holds(x, y) {
        blended(prev, color.spec_packed(), color.spec_alpha()) as u32
    } else {
        prev
    }
}

/// The word pixel `(x, y)` holds after `draw_rect_outline(rect, color, t)`: the
/// top, bottom, left, and right bands, each `t` thick, inside `rect`.
pub open spec fn outline_word(prev: u32, x: int, y: int, rect: Rect, color: Color, t: u32) -> u32 {
    let top = Rect { origin: rect.origin, size: Size { w: rect.size.w, h: t } };
    let bottom = Rect {
        origin: Point { x: rect.origin.x, y: (rect.spec_bottom() - t) as i32 },
        size: Size { w: rect.size.w, h: t },
    };
    let left = Rect { origin: rect.origin, size: Size { w: t, h: rect.size.h } };
    let right = Rect {
        origin: Point { x: (rect.spec_right() - t) as i32, y: rect.origin.y },
        size: Size { w: t, h: rect.size.h },
    };
    rect_word(
        rect_word(rect_word(rect_word(prev, x, y, top, color), x, y, bottom, color), x, y, left, color),
        x,
        y,
        right,
        color,
    )
}

/// `d / s` lands inside `0..n` when `d` lies in the first `n` blocks of `s`.
pub proof fn lemma_block_index(d: int, s: int, n: int)
    requires
        s > 0,
        0 <= d,
        d < n * s,
    ensures
        0 <= d / s < n,
{
    assert(n * s == s * n) by (nonlinear_arith);
    vstd::arithmetic::div_mod::lemma_multiply_divide_lt(d, s, n);
    vstd::arithmetic::div_mod::lemma_div_pos_is_pos(d, s);
}

/// `[lo, hi)` is exactly the part of `0..limit` inside `[origin, origin + len)`.
pub open spec fn span_exact(lo: int, hi: int, origin: int, len: int, limit: int) -> bool {
    &&& 0 <= lo <= hi <= limit
    &&& lo < hi ==> lo == (if origin < 0 { 0 } else { origin }) && hi == (if origin + len > limit {
        limit
    } else {
        origin + len
    })
    &&& lo == hi ==> (if origin < 0 { 0 } else { origin }) >= (if origin + len > limit {
        limit
    } else {
        origin + len
    })
}

/// The half-open span `[lo, hi)` of `0..limit` that `[origin, origin + len)`
/// covers.
fn clip_span(origin: i128, len: i128, limit: u32) -> (r: (u32, u32))
    requires
        -0x1_0000_0000_0000_0000 <= origin <= 0x1_0000_0000_0000_0000,
        0 <= len <= 0x1_0000_0000_0000_0000,
    ensures
        span_exact(r.0 as int, r.1 as int, origin as int, len as int, limit as int),
{
    let lo: i128 = if origin < 0 { 0 } else { origin };
    let end = origin + len;
    let hi: i128 = if end > limit as i128 { limit as i128 } else { end };
    if lo >= hi {
        (0, 0)
    } else {
        (lo as u32, hi as u32)
    }
}

/// Source-over mix of one channel, computed exactly.
fn mix_channel(s: u32, d: u32, a: u32) -> (m: u32)
    requires
        s < 256,
        d < 256,
        a < 256,
    ensures
        m == mix(s as int, d as int, a as int),
        m < 256,
{
    assert(s * a + d * (255 - a) + 127 <= 255 * 255 + 127) by (nonlinear_arith)
        requires
            s < 256,
            d < 256,
            a < 256,
    ;
    assert(0 <= s * a + d * (255 - a)) by (nonlinear_arith)
        requires
            s < 256,
            d < 256,
            a < 256,
    ;
    (s * a + d * (255 - a) + 127) / 255
}

/// Source-over composite of `src` onto `dst` at `a/255` coverage.
fn blend_word(dst: u32, src: u32, a: u32) -> (w: u32)
    requires
        a < 256,
    ensures
        w == blended(dst, src, a as int),
{
    let r = mix_channel((src / 0x1_0000) % 0x100, (dst / 0x1_0000) % 0x100, a);
    let g = mix_channel((src / 0x100) % 0x100, (dst / 0x100) % 0x100, a);
    let b = mix_channel(src % 0x100, dst % 0x100, a);
    r * 0x1_0000 + g * 0x100 + b
}

impl Surface {
    /// The surface's extent.
    pub closed spec fn dims(self) -> Size {
        self.size
    }

    /// The row-major word buffer.
    pub closed spec fn words(self) -> Seq<u32> {
        self.buf@
    }

    /// The buffer holds exactly one word per pixel.
    pub open spec fn wf(self) -> bool {
        self.words().len() == self.dims().w * self.dims().h
    }

    /// The word at pixel `(x, y)`.
    pub open spec fn at(self, x: int, y: int) -> u32 {
        self.words()[y * self.dims().w + x]
    }

    /// A surface filled with `fill`.
    pub fn new(size: Size, fill: Color) -> (s: Self)
        requires
            size.w * size.h <= usize::MAX,
        ensures
            s.wf(),
            s.dims() == size,
            forall|x: int, y: int| size.holds(x, y) ==> #[trigger] s.at(x, y) == fill.spec_packed(),
    {
        let n = size.area();
        let word = fill.packed();
        let mut buf: Vec<u32> = Vec::new();
        while buf.len() < n
            invariant
                buf.len() <= n,
                forall|i: int| 0 <= i < buf.len() ==> buf@[i] == word,
            decreases n - buf.len(),
        {
            buf.push(word);
        }
        let s = Self { size, buf };
        proof {
            assert forall|x: int, y: int| size.holds(x, y) implies #[trigger] s.at(x, y)
                == fill.spec_packed() by {
                lemma_grid_index(size.w as int, size.h as int, x, y);
            }
        }
        s
    }

    pub fn size(&self) -> (s: Size)
        ensures
            s == self.dims(),
    {
        self.size
    }

    /// The raw buffer, for handing to the window backend.
    pub fn as_slice(&self) -> (s: &[u32])
        ensures
            s@ == self.words(),
    {
        self.buf.as_slice()
    }

    /// Write one word at an in-bounds pixel, leaving every other pixel alone.
    pub(crate) fn put(&mut self, x: u32, y: u32, word: u32)
        requires
            old(self).wf(),
            x < old(self).dims().w,
            y < old(self).dims().h,
        ensures
            final(self).wf(),
            final(self).dims() == old(self).dims(),
            forall|px: int, py: int| #[trigger]
                final(self).dims().holds(px, py) ==> final(self).at(px, py) == if px == x && py
                    == y {
                    word
                } else {
                    old(self).at(px, py)
                },
    {
        let w = self.size.w;
        let n = self.buf.len();
        proof {
            lemma_grid_index(w as int, self.size.h as int, x as int, y as int);
        }
        let i = y as usize * w as usize + x as usize;
        let ghost before = *self;
        self.buf.set(i, word);
        proof {
            assert forall|px: int, py: int| #[trigger]
                self.dims().holds(px, py) implies self.at(px, py) == if px == x && py == y {
                word
            } else {
                before.at(px, py)
            } by {
                lemma_grid_index(w as int, self.size.h as int, px, py);
                if (px, py) != (x as int, y as int) {
                    lemma_grid_index_injective(w as int, px, py, x as int, y as int);
                }
            }
        }
    }

    /// Overwrite every pixel with `color`.
    pub fn fill(&mut self, color: Color)
        requires
            old(self).wf(),
        ensures
            final(self).wf(),
            final(self).dims() == old(self).dims(),
            forall|x: int, y: int| #[trigger]
                final(self).dims().holds(x, y) ==> final(self).at(x, y) == color.spec_packed(),
    {
        let full = Rect::from_size(self.size);
        let word = color.packed();
        self.paint_rect(full, word);
    }

    /// Write `word` into every pixel of `rect` that lies on the surface.
    fn paint_rect(&mut self, rect: Rect, word: u32)
        requires
            old(self).wf(),
        ensures
            final(self).wf(),
            final(self).dims() == old(self).dims(),
            forall|x: int, y: int| #[trigger]
                final(self).dims().holds(x, y) ==> final(self).at(x, y) == if rect.holds(x, y) {
                    word
                } else {
                    old(self).at(x, y)
                },
    {
        let ghost before = *self;
        let (x0, x1) = clip_span(rect.origin.x as i128, rect.size.w as i128, self.size.w);
        let (y0, y1) = clip_span(rect.origin.y as i128, rect.size.h as i128, self.size.h);
        let mut y = y0;
        while y < y1
            invariant
                self.wf(),
                self.dims() == before.dims(),
                x0 <= x1 <= self.dims().w,
                y0 <= y <= y1 <= self.dims().h,
                span_exact(x0 as int, x1 as int, rect.origin.x as int, rect.size.w as int, self.dims().w as int),
                span_exact(y0 as int, y1 as int, rect.origin.y as int, rect.size.h as int, self.dims().h as int),
                forall|px: int, py: int| #[trigger]
                    self.dims().holds(px, py) ==> self.at(px, py) == if y0 <= py < y && x0 <= px
                        < x1 {
                        word
                    } else {
                        before.at(px, py)
                    },
            decreases y1 - y,
        {
            let mut x = x0;
            while x < x1
                invariant
                    self.wf(),
                    self.dims() == before.dims(),
                    x0 <= x <= x1 <= self.dims().w,
                    y0 <= y < y1 <= self.dims().h,
                    forall|px: int, py: int| #[trigger]
                        self.dims().holds(px, py) ==> self.at(px, py) == if (y0 <= py < y && x0
                            <= px < x1) || (py == y && x0 <= px < x) {
                            word
                        } else {
                            before.at(px, py)
                        },
                decreases x1 - x,
            {
                self.put(x, y, word);
                x = x + 1;
            }
            y = y + 1;
        }
    }

    /// Write one pixel, skipping transparent colours and out-of-bounds points.
    pub fn set(&mut self, p: Point, color: Color)
        requires
            old(self).wf(),
        ensures
            final(self).wf(),
            final(self).dims() == old(self).dims(),
            forall|x: int, y: int| #[trigger]
                final(self).dims().holds(x, y) ==> final(self).at(x, y) == if color.visible() && x
                    == p.x && y == p.y {
                    color.spec_packed()
                } else {
                    old(self).at(x, y)
                },
    {
        if color.is_visible() && self.size.contains(p) {
            let word = color.packed();
            self.put(p.x as u32, p.y as u32, word);
        }
    }

    /// Fill an axis-aligned rectangle with an opaque colour, clipped to bounds.
    /// A transparent colour draws nothing.
    pub fn fill_rect(&mut self, rect: Rect, color: Color)
        requires
            old(self).wf(),
        ensures
            final(self).wf(),
            final(self).dims() == old(self).dims(),
            forall|x: int, y: int| #[trigger]
                final(self).dims().holds(x, y) ==> final(self).at(x, y) == rect_word(
                    old(self).at(x, y),
                    x,
                    y,
                    rect,
                    color,
                ),
    {
        if !color.is_visible() {
            return;
        }
        let word = color.packed();
        self.paint_rect(rect, word);
    }

    /// Draw `thickness`-thick edges just inside `rect` (a hollow rectangle).
    pub fn draw_rect_outline(&mut self, rect: Rect, color: Color, thickness: u32)
        requires
            old(self).wf(),
            rect.edges_fit(),
            i32::MIN <= rect.spec_right() - thickness,
            i32::MIN <= rect.spec_bottom() - thickness,
        ensures
            final(self).wf(),
            final(self).dims() == old(self).dims(),
            forall|x: int, y: int| #[trigger]
                final(self).dims().holds(x, y) ==> final(self).at(x, y) == outline_word(
                    old(self).at(x, y),
                    x,
                    y,
                    rect,
                    color,
                    thickness,
                ),
    {
        let ghost s0 = *self;
        let origin = rect.origin;
        let size = rect.size;
        let t = thickness as i64;
        let bottom_y = (rect.bottom() as i64 - t) as i32;
        let right_x = (rect.right() as i64 - t) as i32;
        self.fill_rect(Rect::new(origin, Size::new(size.w, thickness)), color);
        let ghost s1 = *self;
        self.fill_rect(Rect::new(Point::new(origin.x, bottom_y), Size::new(size.w, thickness)), color);
        let ghost s2 = *self;
        self.fill_rect(Rect::new(origin, Size::new(thickness, size.h)), color);
        let ghost s3 = *self;
        self.fill_rect(Rect::new(Point::new(right_x, origin.y), Size::new(thickness, size.h)), color);
        proof {
            assert forall|x: int, y: int| #[trigger] self.dims().holds(x, y) implies self.at(x, y)
                == outline_word(s0.at(x, y), x, y, rect, color, thickness) by {
                assert(s1.at(x, y) == rect_word(s0.at(x, y), x, y, Rect { origin, size: Size { w: size.w, h: thickness } }, color));
                assert(s2.dims().holds(x, y));
                assert(s3.dims().holds(x, y));
            }
        }
    }

    /// Alpha-composite `color` over the pixel at `p` by `coverage` (`0..=255`).
    /// The anti-aliased path — distinct from the 1-bit [`set`](Self::set).
    pub fn blend(&mut self, p: Point, color: Color, coverage: u8)
        requires
            old(self).wf(),
        ensures
            final(self).wf(),
            final(self).dims() == old(self).dims(),
            forall|x: int, y: int| #[trigger]
                final(self).dims().holds(x, y) ==> final(self).at(x, y) == if coverage != 0 && x
                    == p.x && y == p.y {
                    blended(old(self).at(x, y), color.spec_packed(), coverage as int) as u32
                } else {
                    old(self).at(x, y)
                },
    {
        if coverage == 0 || !self.size.contains(p) {
            return;
        }
        let x = p.x as u32;
        let y = p.y as u32;
        let prev = self.read(x, y);
        let word = blend_word(prev, color.packed(), coverage as u32);
        self.put(x, y, word);
    }

    /// The word at an in-bounds pixel.
    fn read(&self, x: u32, y: u32) -> (w: u32)
        requires
            self.wf(),
            x < self.dims().w,
            y < self.dims().h,
        ensures
            w == self.at(x as int, y as int),
    {
        let n = self.buf.len();
        proof {
            lemma_grid_index(self.size.w as int, self.size.h as int, x as int, y as int);
        }
        self.buf[y as usize * self.size.w as usize + x as usize]
    }

    /// Alpha-composite `color` over every pixel in `rect`, clipped to bounds, at
    /// the coverage carried by `color`'s own alpha — the rectangle counterpart of
    /// [`blend`](Self::blend). A zero-alpha colour is a no-op.
    pub fn blend_rect(&mut self, rect: Rect, color: Color)
        requires
            old(self).wf(),
        ensures
            final(self).wf(),
            final(self).dims() == old(self).dims(),
            forall|x: int, y: int| #[trigger]
                final(self).dims().holds(x, y) ==> final(self).at(x, y) == blend_rect_word(
                    old(self).at(x, y),
                    x,
                    y,
                    rect,
                    color,
                ),
    {
        let coverage = color.alpha();
        if coverage == 0 {
            return;
        }
        let a = coverage as u32;
        let src = color.packed();
        let ghost before = *self;
        let (x0, x1) = clip_span(rect.origin.x as i128, rect.size.w as i128, self.size.w);
        let (y0, y1) = clip_span(rect.origin.y as i128, rect.size.h as i128, self.size.h);
        let mut y = y0;
        while y < y1
            invariant
                self.wf(),
                self.dims() == before.dims(),
                x0 <= x1 <= self.dims().w,
                y0 <= y <= y1 <= self.dims().h,
                a == color.spec_alpha(),
                src == color.spec_packed(),
                a != 0,
                span_exact(x0 as int, x1 as int, rect.origin.x as int, rect.size.w as int, self.dims().w as int),
                span_exact(y0 as int, y1 as int, rect.origin.y as int, rect.size.h as int, self.dims().h as int),
                forall|px: int, py: int| #[trigger]
                    self.dims().holds(px, py) ==> self.at(px, py) == if y0 <= py < y && x0 <= px
                        < x1 {
                        blend_rect_word(before.at(px, py), px, py, rect, color)
                    } else {
                        before.at(px, py)
                    },
            decreases y1 - y,
        {
            let mut x = x0;
            while x < x1
                invariant
                    self.wf(),
                    self.dims() == before.dims(),
                    x0 <= x <= x1 <= self.dims().w,
                    y0 <= y < y1 <= self.dims().h,
                    a == color.spec_alpha(),
                    src == color.spec_packed(),
                    a != 0,
                    span_exact(x0 as int, x1 as int, rect.origin.x as int, rect.size.w as int, self.dims().w as int),
                    span_exact(y0 as int, y1 as int, rect.origin.y as int, rect.size.h as int, self.dims().h as int),
                    forall|px: int, py: int| #[trigger]
                        self.dims().holds(px, py) ==> self.at(px, py) == if (y0 <= py < y && x0
                            <= px < x1) || (py == y && x0 <= px < x) {
                            blend_rect_word(before.at(px, py), px, py, rect, color)
                        } else {
                            before.at(px, py)
                        },
                decreases x1 - x,
            {
                let prev = self.read(x, y);
                let word = blend_word(prev, src, a);
                self.put(x, y, word);
                x = x + 1;
            }
            y = y + 1;
        }
    }
}


/// The precomputed transform for one [`Surface::draw_sprite_ex`] call.
/// `turns × flip_x × flip_y` collapse to the eight elements of the dihedral
/// group, written as (swap axes, negate x, negate y) of the inverse map from an
/// output pixel back to its source cell.
#[derive(Debug, Clone, Copy, PartialEq, Eq)]
pub struct SpriteTransform {
    /// Whether the transform swaps axes (a 90° or 270° turn).
    pub swaps_axes: bool,
    /// Whether the source column is read mirrored.
    pub neg_x: bool,
    /// Whether the source row is read mirrored.
    pub neg_y: bool,
    /// The transformed output size in pixels (before scaling).
    pub out_size: Size,
}

impl SpriteTransform {
    /// The transform `options` apply to a region of size `region`.
    pub fn new(region: Size, options: &BlitOptions) -> (t: Self)
        ensures
            t.swaps_axes == swaps(*options),
            t.neg_x == neg_x(*options),
            t.neg_y == neg_y(*options),
            t.out_size == (if swaps(*options) {
                Size { w: region.h, h: region.w }
            } else {
                region
            }),
    {
        // Compose the inverse transform (output pixel → source cell): a
        // clockwise quarter turn maps source (x, y) to output (h−1−y, x), so
        // its inverse reads x = oy, y = my − ox — a swap plus a y-negation; the
        // half turn negates both; 270° swaps and negates x. A flip mirrors one
        // source axis after the un-rotation, toggling that axis's negation.
        let (swaps_axes, nx, ny) = match options.turns {
            QuarterTurns::Upright => (false, false, false),
            QuarterTurns::Quarter => (true, false, true),
            QuarterTurns::Half => (false, true, true),
            QuarterTurns::ThreeQuarters => (true, true, false),
        };
        SpriteTransform {
            swaps_axes,
            neg_x: nx != options.flip_x,
            neg_y: ny != options.flip_y,
            out_size: if swaps_axes {
                Size::new(region.h, region.w)
            } else {
                region
            },
        }
    }
}

/// The caller's region clamped to the sprite's bounds, as `(x, y, w, h)`
/// (`None` argument = the whole sprite); `None` result = nothing to draw.
fn clamped_region(sprite: Size, region: Option<Rect>) -> (r: Option<(u32, u32, u32, u32)>)
    ensures
        ({
            let (x0, y0, x1, y1) = region_bounds(sprite, region);
            match r {
                Some((x, y, w, h)) => x1 > x0 && y1 > y0 && x == x0 && y == y0 && w == x1 - x0
                    && h == y1 - y0,
                None => !(x1 > x0 && y1 > y0),
            }
        }),
{
    match region {
        None => {
            if sprite.w > 0 && sprite.h > 0 {
                Some((0, 0, sprite.w, sprite.h))
            } else {
                None
            }
        },
        Some(r) => {
            let sw = sprite.w as i64;
            let sh = sprite.h as i64;
            let ox = r.origin.x as i64;
            let oy = r.origin.y as i64;
            let x0 = if ox < 0 { 0 } else if ox > sw { sw } else { ox };
            let y0 = if oy < 0 { 0 } else if oy > sh { sh } else { oy };
            let ex = ox + r.size.w as i64;
            let ey = oy + r.size.h as i64;
            let x1 = if ex < 0 { 0 } else if ex > sw { sw } else { ex };
            let y1 = if ey < 0 { 0 } else if ey > sh { sh } else { ey };
            if x1 > x0 && y1 > y0 {
                Some((x0 as u32, y0 as u32, (x1 - x0) as u32, (y1 - y0) as u32))
            } else {
                None
            }
        },
    }
}

/// The block indices `first..end` of [`visible_blocks`].
pub open spec fn spec_visible_blocks(offset: int, scale: int, count: int, limit: int) -> (int, int) {
    let first = if offset < 0 { (-offset) / scale } else { 0 };
    let span = limit - offset;
    let end = if span <= 0 {
        0
    } else if count < (span + scale - 1) / scale {
        count
    } else {
        (span + scale - 1) / scale
    };
    (if first < end { first } else { end }, end)
}

/// The output-pixel indices in `0..count` whose `scale`-wide blocks — block
/// `i` spans `[offset + i·scale, offset + (i+1)·scale)` — intersect
/// `[0, limit)`. Destination clipping, computed once per axis.
pub fn visible_blocks(offset: i64, scale: i64, count: i64, limit: i64) -> (r: core::ops::Range<i64>)
    requires
        scale > 0,
    ensures
        (r.start as int, r.end as int) == spec_visible_blocks(
            offset as int,
            scale as int,
            count as int,
            limit as int,
        ),
        r.start <= r.end,
        count >= 0 ==> forall|i: int| #![trigger (offset + i * scale)]
            r.start <= i < r.end <==> (0 <= i < count && offset + i * scale < limit && 0 < offset
                + (i + 1) * scale),
{
    let o = offset as i128;
    let s = scale as i128;
    let first: i128 = if o < 0 { (-o) / s } else { 0 };
    let span = limit as i128 - o;
    let end: i128 = if span <= 0 {
        0
    } else {
        let blocks = (span + s - 1) / s;
        if (count as i128) < blocks { count as i128 } else { blocks }
    };
    let start = if first < end { first } else { end };
    proof {
        if count >= 0 {
            lemma_block_window(offset as int, scale as int, count as int, limit as int);
        }
    }
    core::ops::Range { start: start as i64, end: end as i64 }
}

/// The block window of [`spec_visible_blocks`] is exactly the set of blocks
/// that intersect `[0, limit)`.
proof fn lemma_block_window(offset: int, scale: int, count: int, limit: int)
    requires
        scale > 0,
        count >= 0,
    ensures
        ({
            let (start, end) = spec_visible_blocks(offset, scale, count, limit);
            forall|i: int| #![trigger (offset + i * scale)]
                start <= i < end <==> (0 <= i < count && offset + i * scale < limit && 0 < offset
                    + (i + 1) * scale)
        }),
{
    let (start, end) = spec_visible_blocks(offset, scale, count, limit);
    assert forall|i: int| #![trigger (offset + i * scale)]
        start <= i < end <==> (0 <= i < count && offset + i * scale < limit && 0 < offset + (i + 1)
            * scale) by {
        assert((i + 1) * scale == i * scale + scale) by (nonlinear_arith);
        if offset < 0 {
            let q = (-offset) / scale;
            vstd::arithmetic::div_mod::lemma_fundamental_div_mod(-offset, scale);
            // q*scale <= -offset < (q+1)*scale
            assert(q * scale <= -offset < q * scale + scale) by (nonlinear_arith)
                requires
                    -offset == scale * q + (-offset) % scale,
                    0 <= (-offset) % scale < scale,
            ;
            // i >= q  <==>  offset + (i+1)*scale > 0
            if i >= q {
                assert(i * scale >= q * scale) by (nonlinear_arith)
                    requires
                        i >= q,
                        scale > 0,
                ;
            } else {
                assert(i * scale + scale <= q * scale) by (nonlinear_arith)
                    requires
                        i + 1 <= q,
                        scale > 0,
                ;
            }
        } else {
            if i >= 0 {
                assert(i * scale >= 0) by (nonlinear_arith)
                    requires
                        i >= 0,
                        scale > 0,
                ;
            } else {
                assert(i * scale + scale <= 0) by (nonlinear_arith)
                    requires
                        i + 1 <= 0,
                        scale > 0,
                ;
            }
        }
        let span = limit - offset;
        if span > 0 {
            let b = (span + scale - 1) / scale;
            vstd::arithmetic::div_mod::lemma_fundamental_div_mod(span + scale - 1, scale);
            assert(b * scale <= span + scale - 1 < b * scale + scale) by (nonlinear_arith)
                requires
                    span + scale - 1 == scale * b + (span + scale - 1) % scale,
                    0 <= (span + scale - 1) % scale < scale,
            ;
            // i < b  <==>  i*scale < span
            if i < b {
                assert(i * scale + scale <= b * scale) by (nonlinear_arith)
                    requires
                        i + 1 <= b,
                        scale > 0,
                ;
            } else {
                assert(i * scale >= b * scale) by (nonlinear_arith)
                    requires
                        i >= b,
                        scale > 0,
                ;
            }
        } else {
            if i >= 0 {
                assert(i * scale >= 0) by (nonlinear_arith)
                    requires
                        i >= 0,
                        scale > 0,
                ;
            }
        }
    }
}

impl Surface {
    /// Composite `sprite` — or a `region` of it — with mirroring, quarter-turn
    /// rotation, and integer scaling: the region (clamped to the sprite's
    /// bounds) is mirrored per `flip_x`/`flip_y`, then turned clockwise by
    /// `turns`, and each resulting pixel becomes a `scale × scale` block whose
    /// top-left lands at `at`. Transparent source pixels leave the destination
    /// untouched; a `scale` of `0` draws nothing.
    pub fn draw_sprite_ex(&mut self, sprite: &Sprite, at: Point, options: BlitOptions)
        requires
            old(self).wf(),
            sprite.wf(),
        ensures
            final(self).wf(),
            final(self).dims() == old(self).dims(),
            forall|x: int, y: int| #[trigger]
                final(self).dims().holds(x, y) ==> final(self).at(x, y) == ex_word(
                    old(self).at(x, y),
                    x,
                    y,
                    *sprite,
                    at,
                    options,
                ),
    {
        if options.scale == 0 {
            return;
        }
        let region = clamped_region(sprite.size(), options.region);
        let (rx, ry, rw, rh) = match region {
            None => {
                return;
            },
            Some(r) => r,
        };
        let t = SpriteTransform::new(Size::new(rw, rh), &options);
        let ghost before = *self;
        let s = options.scale as i64;
        let (x0, x1) = clip_span(at.x as i128, mul_u32(t.out_size.w, options.scale) as i128, self.size.w);
        let (y0, y1) = clip_span(at.y as i128, mul_u32(t.out_size.h, options.scale) as i128, self.size.h);
        let ghost ow = t.out_size.w as int;
        let ghost oh = t.out_size.h as int;
        proof {
            assert(x1 <= x0 || (x0 == (if at.x < 0 { 0 } else { at.x as int }) && x1 == (if at.x + ow * s > self.dims().w { self.dims().w as int } else { at.x + ow * s })));
        }
        let mut y = y0;
        while y < y1
            invariant
                self.wf(),
                sprite.wf(),
                self.dims() == before.dims(),
                x0 <= x1 <= self.dims().w,
                y0 <= y <= y1 <= self.dims().h,
                span_exact(x0 as int, x1 as int, at.x as int, ow * s, self.dims().w as int),
                span_exact(y0 as int, y1 as int, at.y as int, oh * s, self.dims().h as int),
                ow == t.out_size.w,
                oh == t.out_size.h,
                s == options.scale,
                s > 0,
                region == Some((rx, ry, rw, rh)),
                region_bounds(sprite.dims(), options.region) == (rx as int, ry as int, rx + rw, ry
                    + rh),
                rw > 0,
                rh > 0,
                t.swaps_axes == swaps(options),
                t.neg_x == neg_x(options),
                t.neg_y == neg_y(options),
                t.out_size == (if swaps(options) {
                    Size { w: rh, h: rw }
                } else {
                    Size { w: rw, h: rh }
                }),
                rx + rw <= sprite.dims().w,
                ry + rh <= sprite.dims().h,
                forall|px: int, py: int| #[trigger]
                    self.dims().holds(px, py) ==> self.at(px, py) == if y0 <= py < y && x0 <= px
                        < x1 {
                        ex_word(before.at(px, py), px, py, *sprite, at, options)
                    } else {
                        before.at(px, py)
                    },
            decreases y1 - y,
        {
            let mut x = x0;
            while x < x1
                invariant
                    self.wf(),
                    sprite.wf(),
                    self.dims() == before.dims(),
                    x0 <= x <= x1 <= self.dims().w,
                    y0 <= y < y1 <= self.dims().h,
                    span_exact(x0 as int, x1 as int, at.x as int, ow * s, self.dims().w as int),
                    span_exact(y0 as int, y1 as int, at.y as int, oh * s, self.dims().h as int),
                    ow == t.out_size.w,
                    oh == t.out_size.h,
                    s == options.scale,
                    s > 0,
                    region_bounds(sprite.dims(), options.region) == (rx as int, ry as int, rx + rw,
                    ry + rh),
                    rw > 0,
                    rh > 0,
                    t.swaps_axes == swaps(options),
                    t.neg_x == neg_x(options),
                    t.neg_y == neg_y(options),
                    t.out_size == (if swaps(options) {
                        Size { w: rh, h: rw }
                    } else {
                        Size { w: rw, h: rh }
                    }),
                    rx + rw <= sprite.dims().w,
                    ry + rh <= sprite.dims().h,
                    forall|px: int, py: int| #[trigger]
                        self.dims().holds(px, py) ==> self.at(px, py) == if (y0 <= py < y && x0
                            <= px < x1) || (py == y && x0 <= px < x) {
                            ex_word(before.at(px, py), px, py, *sprite, at, options)
                        } else {
                            before.at(px, py)
                        },
                decreases x1 - x,
            {
                let dx = x as i64 - at.x as i64;
                let dy = y as i64 - at.y as i64;
                proof {
                    lemma_block_index(dx as int, s as int, ow);
                    lemma_block_index(dy as int, s as int, oh);
                }
                let ox = dx / s;
                let oy = dy / s;
                let u = if t.swaps_axes { oy } else { ox };
                let v = if t.swaps_axes { ox } else { oy };
                let sx = if t.neg_x { rw as i64 - 1 - u } else { u };
                let sy = if t.neg_y { rh as i64 - 1 - v } else { v };
                let c = sprite.read((rx as i64 + sx) as u32, (ry as i64 + sy) as u32);
                proof {
                    assert(c == sprite.cell(rx + sx, ry + sy));
                    assert(0 <= dx < ow * s);
                    assert(0 <= dy < oh * s);
                }
                if c.is_visible() {
                    let word = match options.tint {
                        Some(tint) => tint.packed(),
                        None => c.packed(),
                    };
                    proof {
                        assert(word == ex_word(before.at(x as int, y as int), x as int, y as int, *sprite, at, options));
                    }
                    self.put(x, y, word);
                } else {
                    proof {
                        assert(self.dims().holds(x as int, y as int));
                        assert(self.at(x as int, y as int) == ex_word(before.at(x as int, y as int), x as int, y as int, *sprite, at, options));
                    }
                }
                x = x + 1;
            }
            y = y + 1;
        }
    }

    /// Nearest-neighbour integer upscale of `src` into this surface: every
    /// source pixel becomes a `scale × scale` block whose top-left lands at
    /// `dst`. Clipped to bounds. `scale` is treated as at least 1. `src` is
    /// opaque (a screen, not a sprite), so its words are copied verbatim.
    pub fn draw_upscaled(&mut self, src: &Surface, scale: u32, dst: Point)
        requires
            old(self).wf(),
            src.wf(),
        ensures
            final(self).wf(),
            final(self).dims() == old(self).dims(),
            forall|x: int, y: int| #[trigger]
                final(self).dims().holds(x, y) ==> final(self).at(x, y) == upscale_word(
                    old(self).at(x, y),
                    x,
                    y,
                    *src,
                    scale,
                    dst,
                ),
    {
        let s32: u32 = if scale == 0 { 1 } else { scale };
        let s = s32 as i64;
        let ghost before = *self;
        let ghost sw = src.dims().w as int;
        let ghost sh = src.dims().h as int;
        let (x0, x1) = clip_span(dst.x as i128, mul_u32(src.size.w, s32) as i128, self.size.w);
        let (y0, y1) = clip_span(dst.y as i128, mul_u32(src.size.h, s32) as i128, self.size.h);
        let mut y = y0;
        while y < y1
            invariant
                self.wf(),
                src.wf(),
                self.dims() == before.dims(),
                x0 <= x1 <= self.dims().w,
                y0 <= y <= y1 <= self.dims().h,
                span_exact(x0 as int, x1 as int, dst.x as int, sw * s, self.dims().w as int),
                span_exact(y0 as int, y1 as int, dst.y as int, sh * s, self.dims().h as int),
                sw == src.dims().w,
                sh == src.dims().h,
                s == (if scale == 0 { 1int } else { scale as int }),
                forall|px: int, py: int| #[trigger]
                    self.dims().holds(px, py) ==> self.at(px, py) == if y0 <= py < y && x0 <= px
                        < x1 {
                        upscale_word(before.at(px, py), px, py, *src, scale, dst)
                    } else {
                        before.at(px, py)
                    },
            decreases y1 - y,
        {
            let mut x = x0;
            while x < x1
                invariant
                    self.wf(),
                    src.wf(),
                    self.dims() == before.dims(),
                    x0 <= x <= x1 <= self.dims().w,
                    y0 <= y < y1 <= self.dims().h,
                    span_exact(x0 as int, x1 as int, dst.x as int, sw * s, self.dims().w as int),
                    span_exact(y0 as int, y1 as int, dst.y as int, sh * s, self.dims().h as int),
                    sw == src.dims().w,
                    sh == src.dims().h,
                    s == (if scale == 0 { 1int } else { scale as int }),
                    forall|px: int, py: int| #[trigger]
                        self.dims().holds(px, py) ==> self.at(px, py) == if (y0 <= py < y && x0
                            <= px < x1) || (py == y && x0 <= px < x) {
                            upscale_word(before.at(px, py), px, py, *src, scale, dst)
                        } else {
                            before.at(px, py)
                        },
                decreases x1 - x,
            {
                let dx = x as i64 - dst.x as i64;
                let dy = y as i64 - dst.y as i64;
                proof {
                    lemma_block_index(dx as int, s as int, sw);
                    lemma_block_index(dy as int, s as int, sh);
                }
                let word = src.read((dx / s) as u32, (dy / s) as u32);
                self.put(x, y, word);
                x = x + 1;
            }
            y = y + 1;
        }
    }

    /// Composite `sprite` with its top-left at `at`, honouring transparency
    /// and clipping to the surface bounds.
    pub fn draw_sprite(&mut self, sprite: &Sprite, at: Point)
        requires
            old(self).wf(),
            sprite.wf(),
        ensures
            final(self).wf(),
            final(self).dims() == old(self).dims(),
            forall|x: int, y: int| #[trigger]
                final(self).dims().holds(x, y) ==> final(self).at(x, y) == (if sprite.cell(
                    x - at.x,
                    y - at.y,
                ).visible() {
                    sprite.cell(x - at.x, y - at.y).spec_packed()
                } else {
                    old(self).at(x, y)
                }),
    {
        let ghost before = *self;
        self.draw_sprite_ex(sprite, at, BlitOptions::default());
        proof {
            assert forall|x: int, y: int| #[trigger] self.dims().holds(x, y) implies self.at(x, y)
                == (if sprite.cell(x - at.x, y - at.y).visible() {
                sprite.cell(x - at.x, y - at.y).spec_packed()
            } else {
                before.at(x, y)
            }) by {
                let dx = x - at.x;
                let dy = y - at.y;
                assert(dx / 1 == dx);
                assert(dy / 1 == dy);
                assert(dx * 1 == dx);
                assert(sprite.dims().w * 1 == sprite.dims().w);
                assert(sprite.dims().h * 1 == sprite.dims().h);
            }
        }
    }

    /// Blit `sprite` at integer `scale` — each source pixel a `scale × scale`
    /// block — with its top-left at `at`, honouring transparency and clipping.
    /// `scale` is treated as at least 1.
    pub fn draw_sprite_scaled(&mut self, sprite: &Sprite, scale: u32, at: Point)
        requires
            old(self).wf(),
            sprite.wf(),
        ensures
            final(self).wf(),
            final(self).dims() == old(self).dims(),
            forall|x: int, y: int| #[trigger]
                final(self).dims().holds(x, y) ==> final(self).at(x, y) == ex_word(
                    old(self).at(x, y),
                    x,
                    y,
                    *sprite,
                    at,
                    BlitOptions { scale: if scale == 0 { 1 } else { scale }, ..BlitOptions::plain() },
                ),
    {
        let s = if scale == 0 { 1 } else { scale };
        self.draw_sprite_ex(sprite, at, BlitOptions { scale: s, ..BlitOptions::default() });
    }

    /// Like [`draw_sprite_scaled`](Self::draw_sprite_scaled), but every opaque
    /// pixel is drawn in `color` — a solid silhouette, for a drop shadow.
    pub fn draw_sprite_silhouette(&mut self, sprite: &Sprite, scale: u32, at: Point, color: Color)
        requires
            old(self).wf(),
            sprite.wf(),
        ensures
            final(self).wf(),
            final(self).dims() == old(self).dims(),
            forall|x: int, y: int| #[trigger]
                final(self).dims().holds(x, y) ==> final(self).at(x, y) == ex_word(
                    old(self).at(x, y),
                    x,
                    y,
                    *sprite,
                    at,
                    BlitOptions {
                        scale: if scale == 0 { 1 } else { scale },
                        tint: Some(color),
                        ..BlitOptions::plain()
                    },
                ),
    {
        let s = if scale == 0 { 1 } else { scale };
        self.draw_sprite_ex(
            sprite,
            at,
            BlitOptions { scale: s, tint: Some(color), ..BlitOptions::default() },
        );
    }
}

/// Law: blending at full alpha is filling: a rectangle blended in a colour of
/// alpha 255 leaves every pixel as filling it with that colour does.
pub proof fn law_an_opaque_blend_is_a_fill(prev: u32, x: int, y: int, rect: Rect, color: Color)
    requires
        color.spec_alpha() == 255,
    ensures
        blend_rect_word(prev, x, y, rect, color) == rect_word(prev, x, y, rect, color),
{
    let w = color.spec_packed();
    lemma_full_mix(channel(w, 2), channel(prev, 2));
    lemma_full_mix(channel(w, 1), channel(prev, 1));
    lemma_full_mix(channel(w, 0), channel(prev, 0));
    assert(((w / 0x1_0000) % 0x100) * 0x1_0000 + ((w / 0x100) % 0x100) * 0x100 + (w % 0x100) == w)
        by (bit_vector)
        requires
            w < 0x100_0000,
    ;
}

/// A channel mixed in at full coverage is the source channel.
proof fn lemma_full_mix(s: int, d: int)
    requires
        0 <= s < 256,
        0 <= d < 256,
    ensures
        mix(s, d, 255) == s,
{
    assert((s * 255 + d * 0 + 127) / 255 == s) by (nonlinear_arith)
        requires
            0 <= s < 256,
    ;
}

} // verus!
