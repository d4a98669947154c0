//! Pixel-art text: oversized "8-bit" glyphs baked into a reusable [`Sprite`].
//!
//! Glyph masks are laid out on a pen line at source resolution, composed into a
//! 1-bit grid, ringed with an outline and a down-right shadow, and each grid
//! cell is baked as a `scale × scale` block.

use vstd::prelude::*;

use crate::color::{argb_word, palette, Color};
use crate::geometry::Size;
use crate::glyph::{bitmap_ink, Bitmap8x8, GlyphMask, GlyphSource};
use vstd::string::StrSliceExecFns;
use crate::sprite::Sprite;

verus! {

/// What to lay down at a single art-pixel of a glyph, by fixed precedence:
/// `Fill` > `Outline` > `Shadow` > `Transparent`.
#[derive(Debug, Clone, Copy, PartialEq, Eq, Structural)]
pub enum Ink {
    Transparent,
    Shadow,
    Outline,
    Fill,
}

/// The three ink colours of big text.
#[derive(Debug, Clone, Copy, PartialEq, Eq, Structural)]
pub struct TextColors {
    pub fill: Color,
    pub outline: Color,
    pub shadow: Color,
}

/// The palette's fill, outline and shadow.
pub open spec fn default_colors(c: TextColors) -> bool {
    &&& c.fill.0 == argb_word(0xFF, 0x39, 0xD3, 0x53)
    &&& c.outline.0 == argb_word(0xFF, 0x00, 0x00, 0x00)
    &&& c.shadow.0 == argb_word(0xFF, 0xF2, 0xC4, 0x0C)
}

impl Default for TextColors {
    fn default() -> (c: Self)
        ensures
            default_colors(c),
    {
        TextColors { fill: palette::fill(), outline: palette::outline(), shadow: palette::shadow() }
    }
}

impl TextColors {
    /// The colour an ink resolves to.
    pub open spec fn spec_of(self, ink: Ink) -> Color {
        match ink {
            Ink::Transparent => Color(0),
            Ink::Shadow => self.shadow,
            Ink::Outline => self.outline,
            Ink::Fill => self.fill,
        }
    }

    /// Resolve an [`Ink`] to its colour.
    pub fn of(self, ink: Ink) -> (c: Color)
        ensures
            c == self.spec_of(ink),
    {
        match ink {
            Ink::Transparent => Color::transparent(),
            Ink::Shadow => self.shadow,
            Ink::Outline => self.outline,
            Ink::Fill => self.fill,
        }
    }
}

/// The allocation size of a baked banner, measured without allocating it.
#[derive(Debug, Clone, Copy, PartialEq, Eq, Structural)]
pub struct Footprint {
    /// Cells in the source-resolution grid, before scaling.
    pub source_cells: u64,
    /// Pixels in the final integer-scaled sprite.
    pub scaled_pixels: u64,
}

// ---- layout, in exact arithmetic ----

/// The pen position before glyph `k`: the advances and tracking of the glyphs
/// before it.
pub open spec fn pen(masks: Seq<GlyphMask>, t: int, k: int) -> int
    decreases k,
{
    if k <= 0 {
        0
    } else {
        pen(masks, t, k - 1) + masks[k - 1].advance + t
    }
}

/// The left edge of glyph `k`'s ink box.
pub open spec fn left(masks: Seq<GlyphMask>, t: int, k: int) -> int {
    pen(masks, t, k) + masks[k].x_offset
}

/// The leftmost of the origin and the first `k` ink boxes.
pub open spec fn ink_lo(masks: Seq<GlyphMask>, t: int, k: int) -> int
    decreases k,
{
    if k <= 0 {
        0
    } else {
        let p = ink_lo(masks, t, k - 1);
        let l = left(masks, t, k - 1);
        if l < p {
            l
        } else {
            p
        }
    }
}

/// The rightmost of the origin and the first `k` ink boxes' right edges.
pub open spec fn box_hi(masks: Seq<GlyphMask>, t: int, k: int) -> int
    decreases k,
{
    if k <= 0 {
        0
    } else {
        let p = box_hi(masks, t, k - 1);
        let r = left(masks, t, k - 1) + masks[k - 1].width;
        if r > p {
            r
        } else {
            p
        }
    }
}

/// The right end of the line: the farthest ink edge or the final pen.
pub open spec fn ink_hi(masks: Seq<GlyphMask>, t: int) -> int {
    let b = box_hi(masks, t, masks.len() as int);
    let p = pen(masks, t, masks.len() as int);
    if p > b {
        p
    } else {
        b
    }
}

/// Big-text builder: fill, outline and extruded shadow, integer-scaled.
#[derive(Debug, Clone, Copy)]
pub struct BigText {
    scale: u32,
    tracking: u32,
    shadow_depth: u32,
    outline_px: u32,
    gap: u32,
    colors: TextColors,
}

impl Default for BigText {
    fn default() -> (b: Self)
        ensures
            b.spec_scale() == 6,
            b.spec_tracking() == 1,
            b.spec_shadow_depth() == 3,
            b.spec_outline() == 1,
            b.spec_gap() == 14,
            default_colors(b.spec_colors()),
    {
        BigText {
            scale: 6,
            tracking: 1,
            shadow_depth: 3,
            outline_px: 1,
            gap: 14,
            colors: TextColors::default(),
        }
    }
}

impl BigText {
    pub closed spec fn spec_scale(self) -> u32 {
        self.scale
    }

    pub closed spec fn spec_tracking(self) -> u32 {
        self.tracking
    }

    pub closed spec fn spec_shadow_depth(self) -> u32 {
        self.shadow_depth
    }

    pub closed spec fn spec_outline(self) -> u32 {
        self.outline_px
    }

    pub closed spec fn spec_gap(self) -> u32 {
        self.gap
    }

    pub closed spec fn spec_colors(self) -> TextColors {
        self.colors
    }

    /// Every knob: scale, tracking, shadow depth, outline, gap, colours.
    pub closed spec fn knobs(self) -> (u32, u32, u32, u32, u32, TextColors) {
        (self.scale, self.tracking, self.shadow_depth, self.outline_px, self.gap, self.colors)
    }

    /// Columns of the source grid for `masks`: outline pad, the line, outline
    /// pad plus shadow, and the trailing gap.
    pub open spec fn cols(self, masks: Seq<GlyphMask>) -> int {
        let p = self.spec_outline() as int;
        p + (ink_hi(masks, self.spec_tracking() as int) - ink_lo(
            masks,
            self.spec_tracking() as int,
            masks.len() as int,
        )) + p + self.spec_shadow_depth() + self.spec_gap()
    }

    /// Rows of the source grid for a `cell_h` tall source.
    pub open spec fn rows(self, cell_h: int) -> int {
        let p = self.spec_outline() as int;
        p + cell_h + self.spec_shadow_depth() + p
    }

    /// The grid column glyph `k`'s ink box starts at.
    pub open spec fn xpos(self, masks: Seq<GlyphMask>, k: int) -> int {
        left(masks, self.spec_tracking() as int, k) - ink_lo(
            masks,
            self.spec_tracking() as int,
            masks.len() as int,
        ) + self.spec_outline()
    }

    /// Some glyph inks source cell `(gx, gy)`.
    pub open spec fn covered(self, masks: Seq<GlyphMask>, gx: int, gy: int) -> bool {
        exists|k: int|
            0 <= k < masks.len() && #[trigger] masks[k].ink(
                gx - self.xpos(masks, k),
                gy - self.spec_outline(),
            )
    }

    /// A fill cell of the grid (nothing outside the grid is).
    pub open spec fn at(self, cell_h: int, masks: Seq<GlyphMask>, gx: int, gy: int) -> bool {
        0 <= gx < self.cols(masks) && 0 <= gy < self.rows(cell_h) && self.covered(masks, gx, gy)
    }

    /// A fill cell lies within Chebyshev distance `outline_px` of `(gx, gy)`.
    pub open spec fn outline_hit(self, cell_h: int, masks: Seq<GlyphMask>, gx: int, gy: int) -> bool {
        let r = self.spec_outline() as int;
        exists|dx: int, dy: int|
            -r <= dx <= r && -r <= dy <= r && (dx != 0 || dy != 0) && #[trigger] self.at(
                cell_h,
                masks,
                gx + dx,
                gy + dy,
            )
    }

    /// A fill cell lies up-left of `(gx, gy)` within the shadow depth.
    pub open spec fn shadow_hit(self, cell_h: int, masks: Seq<GlyphMask>, gx: int, gy: int) -> bool {
        exists|k: int|
            1 <= k <= self.spec_shadow_depth() && #[trigger] self.at(cell_h, masks, gx - k, gy - k)
    }

    /// The ink of source cell `(gx, gy)`.
    pub open spec fn ink_at(self, cell_h: int, masks: Seq<GlyphMask>, gx: int, gy: int) -> Ink {
        if self.at(cell_h, masks, gx, gy) {
            Ink::Fill
        } else if self.outline_hit(cell_h, masks, gx, gy) {
            Ink::Outline
        } else if self.shadow_hit(cell_h, masks, gx, gy) {
            Ink::Shadow
        } else {
            Ink::Transparent
        }
    }

    /// The colour baked at sprite pixel `(x, y)`: its cell's ink colour, or
    /// transparent where that colour is invisible.
    pub open spec fn pixel(self, cell_h: int, masks: Seq<GlyphMask>, x: int, y: int) -> Color {
        let c = self.spec_colors().spec_of(
            self.ink_at(cell_h, masks, x / self.spec_scale() as int, y / self.spec_scale() as int),
        );
        if c.visible() {
            c
        } else {
            Color(0)
        }
    }

    /// The pen walk stays in `i32`: well-formed masks, advances, widths, pens,
    /// box edges and the line's span, and the grid's size fits `u32`.
    pub open spec fn line_ok(self, cell_h: int, masks: Seq<GlyphMask>) -> bool {
        let t = self.spec_tracking() as int;
        let n = masks.len() as int;
        &&& t <= i32::MAX
        &&& forall|k: int| 0 <= k < n ==> (#[trigger] masks[k]).wf()
        &&& forall|k: int| 0 <= k < n ==> (#[trigger] masks[k]).advance + t <= i32::MAX
        &&& forall|k: int| 0 <= k < n ==> (#[trigger] masks[k]).width <= i32::MAX
        &&& forall|k: int| 0 <= k <= n ==> i32::MIN <= #[trigger] pen(masks, t, k) <= i32::MAX
        &&& forall|k: int| 0 <= k < n ==> i32::MIN <= #[trigger] left(masks, t, k) <= i32::MAX
        &&& forall|k: int|
            0 <= k < n ==> i32::MIN <= #[trigger] left(masks, t, k) + masks[k].width <= i32::MAX
        &&& ink_hi(masks, t) - ink_lo(masks, t, n) <= i32::MAX
        &&& cell_h >= 0
        &&& self.cols(masks) <= u32::MAX
        &&& self.rows(cell_h) <= u32::MAX
    }

    /// Every ink cell of every glyph lands inside the grid's rows.
    pub open spec fn ink_in_rows(self, cell_h: int, masks: Seq<GlyphMask>) -> bool {
        forall|k: int, x: int, y: int|
            0 <= k < masks.len() && #[trigger] masks[k].ink(x, y) ==> self.spec_outline() + y
                < self.rows(cell_h)
    }

    /// Every quantity of the bake is in range: the pen walk, every ink cell
    /// inside the grid, and the scaled sprite's coordinates and size.
    pub open spec fn fits(self, cell_h: int, masks: Seq<GlyphMask>) -> bool {
        let s = self.spec_scale() as int;
        &&& self.spec_scale() >= 1
        &&& self.line_ok(cell_h, masks)
        &&& self.ink_in_rows(cell_h, masks)
        &&& self.cols(masks) * s <= i32::MAX
        &&& self.rows(cell_h) * s <= i32::MAX
        &&& self.cols(masks) * s * (self.rows(cell_h) * s) <= usize::MAX
    }

    /// A builder at `scale` art-pixels per font-pixel (at least 1), other knobs
    /// defaulted.
    pub fn new(scale: u32) -> (b: Self)
        ensures
            b.knobs() == (if scale == 0 { 1u32 } else { scale }, 1u32, 3u32, 1u32, 14u32, b.spec_colors()),
            b.spec_scale() == (if scale == 0 { 1 } else { scale }),
            b.spec_tracking() == 1,
            b.spec_shadow_depth() == 3,
            b.spec_outline() == 1,
            b.spec_gap() == 14,
            default_colors(b.spec_colors()),
    {
        BigText {
            scale: if scale == 0 {
                1
            } else {
                scale
            },
            tracking: 1,
            shadow_depth: 3,
            outline_px: 1,
            gap: 14,
            colors: TextColors::default(),
        }
    }

    /// The magnification this builder bakes at.
    pub fn scale(&self) -> (s: u32)
        ensures
            s == self.spec_scale(),
    {
        self.scale
    }

    /// Blank font-columns between glyphs.
    pub fn tracking(self, tracking: u32) -> (b: Self)
        ensures
            b.knobs() == (self.knobs().0, tracking, self.knobs().2, self.knobs().3, self.knobs().4, self.knobs().5),
    {
        BigText { tracking, ..self }
    }

    /// Depth of the down-right shadow extrusion, in font-pixels.
    pub fn shadow_depth(self, depth: u32) -> (b: Self)
        ensures
            b.knobs() == (self.knobs().0, self.knobs().1, depth, self.knobs().3, self.knobs().4, self.knobs().5),
    {
        BigText { shadow_depth: depth, ..self }
    }

    /// Outline thickness around the fill, in source pixels (`0` = no outline).
    pub fn outline(self, outline_px: u32) -> (b: Self)
        ensures
            b.knobs() == (self.knobs().0, self.knobs().1, self.knobs().2, outline_px, self.knobs().4, self.knobs().5),
    {
        BigText { outline_px, ..self }
    }

    /// Trailing blank font-columns, so a marquee has a gap before it repeats.
    pub fn gap(self, gap: u32) -> (b: Self)
        ensures
            b.knobs() == (self.knobs().0, self.knobs().1, self.knobs().2, self.knobs().3, gap, self.knobs().5),
    {
        BigText { gap, ..self }
    }

    /// Override the fill / outline / shadow colours.
    pub fn colors(self, colors: TextColors) -> (b: Self)
        ensures
            b.knobs() == (self.knobs().0, self.knobs().1, self.knobs().2, self.knobs().3, self.knobs().4, colors),
    {
        BigText { colors, ..self }
    }
}


impl BigText {
    /// The pen walk: each glyph's grid column and the grid's column count.
    fn line(&self, cell_h: u32, masks: &Vec<GlyphMask>) -> (r: (Vec<i32>, u32))
        requires
            self.fits(cell_h as int, masks@),
        ensures
            r.0@.len() == masks@.len(),
            forall|k: int| 0 <= k < masks@.len() ==> #[trigger] r.0@[k] == self.xpos(masks@, k),
            r.1 == self.cols(masks@),
    {
        let ghost ms = masks@;
        let ghost tt = self.tracking as int;
        let t = self.tracking as i32;
        let n = masks.len();
        let mut pen_x: i32 = 0;
        let mut lo: i32 = 0;
        let mut hi: i32 = 0;
        let mut lefts: Vec<i32> = Vec::new();
        let mut k: usize = 0;
        while k < n
            invariant
                self.fits(cell_h as int, ms),
                ms == masks@,
                n == ms.len(),
                tt == self.spec_tracking(),
                t == tt,
                k <= n,
                pen_x == pen(ms, tt, k as int),
                lo == ink_lo(ms, tt, k as int),
                hi == box_hi(ms, tt, k as int),
                lefts@.len() == k,
                forall|j: int| 0 <= j < k ==> #[trigger] lefts@[j] == left(ms, tt, j),
            decreases n - k,
        {
            let m = &masks[k];
            proof {
                assert(ms[k as int].advance + tt <= i32::MAX);
                assert(i32::MIN <= left(ms, tt, k as int) <= i32::MAX);
                assert(i32::MIN <= left(ms, tt, k as int) + ms[k as int].width <= i32::MAX);
                assert(i32::MIN <= pen(ms, tt, k + 1) <= i32::MAX);
                assert(ms[k as int].width <= i32::MAX);
            }
            let l = pen_x + m.x_offset;
            lefts.push(l);
            if l < lo {
                lo = l;
            }
            let r = l + m.width as i32;
            if r > hi {
                hi = r;
            }
            let step = m.advance as i32 + t;
            pen_x = pen_x + step;
            k += 1;
        }
        if pen_x > hi {
            hi = pen_x;
        }
        proof {
            self.lemma_grid_fits(cell_h as int, ms);
            lemma_lo_nonpos(ms, tt, n as int);
            lemma_hi_nonneg(ms, tt, n as int);
            assert(hi >= 0 && lo <= 0);
        }
        let span = hi - lo;
        let pad = self.outline_px;
        let cols = pad + span as u32 + pad + self.shadow_depth + self.gap;
        let mut xs: Vec<i32> = Vec::new();
        let mut j: usize = 0;
        while j < n
            invariant
                self.fits(cell_h as int, ms),
                ms == masks@,
                n == ms.len(),
                tt == self.spec_tracking(),
                lefts@.len() == n,
                forall|i: int| 0 <= i < n ==> #[trigger] lefts@[i] == left(ms, tt, i),
                lo == ink_lo(ms, tt, n as int),
                hi == ink_hi(ms, tt),
                cols == self.cols(ms),
                0 <= self.cols(ms) <= i32::MAX,
                pad == self.spec_outline(),
                j <= n,
                xs@.len() == j,
                forall|i: int| 0 <= i < j ==> #[trigger] xs@[i] == self.xpos(ms, i),
            decreases n - j,
        {
            proof {
                lemma_line_bounds(ms, tt, j as int);
            }
            let x = lefts[j] - lo + pad as i32;
            xs.push(x);
            j += 1;
        }
        (xs, cols)
    }
}

impl BigText {
    /// `on` holds, row-major over the grid, whether each cell is covered.
    pub open spec fn grid_ok(self, cell_h: int, masks: Seq<GlyphMask>, on: Seq<bool>) -> bool {
        let c = self.cols(masks);
        let r = self.rows(cell_h);
        &&& on.len() == c * r
        &&& forall|xx: int, yy: int|
            0 <= xx < c && 0 <= yy < r ==> #[trigger] on[yy * c + xx] == self.covered(masks, xx, yy)
    }

    /// `inks` holds, row-major over the grid, each cell's ink.
    pub open spec fn inks_ok(self, cell_h: int, masks: Seq<GlyphMask>, inks: Seq<Ink>) -> bool {
        let c = self.cols(masks);
        let r = self.rows(cell_h);
        &&& inks.len() == c * r
        &&& forall|xx: int, yy: int|
            0 <= xx < c && 0 <= yy < r ==> #[trigger] inks[yy * c + xx] == self.ink_at(
                cell_h,
                masks,
                xx,
                yy,
            )
    }

    /// Whether some glyph inks grid cell `(gx, gy)`.
    fn covered_exec(&self, cell_h: u32, masks: &Vec<GlyphMask>, xs: &Vec<i32>, gx: i32, gy: i32) -> (b:
        bool)
        requires
            self.fits(cell_h as int, masks@),
            xs@.len() == masks@.len(),
            forall|k: int| 0 <= k < masks@.len() ==> #[trigger] xs@[k] == self.xpos(masks@, k),
        ensures
            b == self.covered(masks@, gx as int, gy as int),
    {
        let ghost ms = masks@;
        let n = masks.len();
        let pad = self.outline_px as i64;
        let mut found = false;
        let mut k: usize = 0;
        while k < n && !found
            invariant
                self.fits(cell_h as int, ms),
                ms == masks@,
                n == ms.len(),
                xs@.len() == n,
                forall|j: int| 0 <= j < n ==> #[trigger] xs@[j] == self.xpos(ms, j),
                pad == self.spec_outline(),
                k <= n,
                found ==> exists|j: int|
                    0 <= j < k && #[trigger] ms[j].ink(gx - self.xpos(ms, j), gy - self.spec_outline()),
                !found ==> forall|j: int|
                    0 <= j < k ==> !#[trigger] ms[j].ink(gx - self.xpos(ms, j), gy - self.spec_outline()),
            decreases n - k,
        {
            let m = &masks[k];
            proof {
                assert(ms[k as int].wf());
            }
            let x = gx as i64 - xs[k] as i64;
            let y = gy as i64 - pad;
            if 0 <= x && x < m.width as i64 && 0 <= y && y < m.height as i64 {
                if m.get(x as u32, y as u32) {
                    found = true;
                }
            }
            k += 1;
        }
        found
    }

    /// The covered grid, row-major.
    fn cover_grid(&self, cell_h: u32, masks: &Vec<GlyphMask>, xs: &Vec<i32>, cols: u32) -> (on: Vec<
        bool,
    >)
        requires
            self.fits(cell_h as int, masks@),
            xs@.len() == masks@.len(),
            forall|k: int| 0 <= k < masks@.len() ==> #[trigger] xs@[k] == self.xpos(masks@, k),
            cols == self.cols(masks@),
        ensures
            self.grid_ok(cell_h as int, masks@, on@),
    {
        proof {
            self.lemma_grid_fits(cell_h as int, masks@);
        }
        let rows = self.outline_px + cell_h + self.shadow_depth + self.outline_px;
        let mut on: Vec<bool> = Vec::new();
        let mut gy: u32 = 0;
        while gy < rows
            invariant
                self.fits(cell_h as int, masks@),
                xs@.len() == masks@.len(),
                forall|k: int| 0 <= k < masks@.len() ==> #[trigger] xs@[k] == self.xpos(masks@, k),
                cols == self.cols(masks@),
                rows == self.rows(cell_h as int),
                cols <= i32::MAX,
                rows <= i32::MAX,
                gy <= rows,
                on@.len() == gy * cols,
                forall|xx: int, yy: int|
                    0 <= xx < cols && 0 <= yy < gy ==> #[trigger] on@[yy * cols + xx] == self.covered(
                        masks@,
                        xx,
                        yy,
                    ),
            decreases rows - gy,
        {
            let mut gx: u32 = 0;
            while gx < cols
                invariant
                    self.fits(cell_h as int, masks@),
                    xs@.len() == masks@.len(),
                    forall|k: int| 0 <= k < masks@.len() ==> #[trigger] xs@[k] == self.xpos(masks@, k),
                    cols == self.cols(masks@),
                    rows == self.rows(cell_h as int),
                    cols <= i32::MAX,
                    rows <= i32::MAX,
                    gy < rows,
                    gx <= cols,
                    on@.len() == gy * cols + gx,
                    forall|xx: int, yy: int|
                        0 <= xx < cols && (0 <= yy < gy || (yy == gy && xx < gx)) ==> #[trigger] on@[yy
                            * cols + xx] == self.covered(masks@, xx, yy),
                decreases cols - gx,
            {
                let c = self.covered_exec(cell_h, masks, xs, gx as i32, gy as i32);
                let ghost before = on@;
                on.push(c);
                proof {
                    assert forall|xx: int, yy: int|
                        0 <= xx < cols && (0 <= yy < gy || (yy == gy && xx < gx + 1)) implies #[trigger] on@[yy
                        * cols + xx] == self.covered(masks@, xx, yy) by {
                        if yy == gy && xx == gx {
                        } else {
                            crate::geometry::lemma_grid_index_injective(
                                cols as int,
                                xx,
                                yy,
                                gx as int,
                                gy as int,
                            );
                            if yy < gy {
                                assert(yy * cols + xx < gy * cols) by (nonlinear_arith)
                                    requires
                                        yy + 1 <= gy,
                                        xx < cols,
                                ;
                            }
                            assert(on@[yy * cols + xx] == before[yy * cols + xx]);
                        }
                    }
                }
                gx += 1;
            }
            proof {
                assert(gy * cols + cols == (gy + 1) * cols) by (nonlinear_arith);
            }
            gy += 1;
        }
        proof {
            assert(on@.len() == cols * rows) by (nonlinear_arith)
                requires
                    on@.len() == gy * cols,
                    gy == rows,
            ;
        }
        on
    }

    /// Whether grid cell `(gx, gy)` is a fill cell.
    fn at_exec(&self, cell_h: u32, masks: &Vec<GlyphMask>, on: &Vec<bool>, cols: u32, rows: u32, gx: i64, gy: i64) -> (b: bool)
        requires
            self.grid_ok(cell_h as int, masks@, on@),
            cols == self.cols(masks@),
            rows == self.rows(cell_h as int),
        ensures
            b == self.at(cell_h as int, masks@, gx as int, gy as int),
    {
        if 0 <= gx && gx < cols as i64 && 0 <= gy && gy < rows as i64 {
            let n = on.len();
            proof {
                crate::geometry::lemma_grid_index(cols as int, rows as int, gx as int, gy as int);
                assert(gy * cols <= gy * cols + gx);
            }
            on[(gy as usize) * (cols as usize) + (gx as usize)]
        } else {
            false
        }
    }

    /// The ink of grid cell `(gx, gy)`.
    fn ink_exec(&self, cell_h: u32, masks: &Vec<GlyphMask>, on: &Vec<bool>, cols: u32, rows: u32, gx: i64, gy: i64) -> (ink: Ink)
        requires
            self.fits(cell_h as int, masks@),
            self.grid_ok(cell_h as int, masks@, on@),
            cols == self.cols(masks@),
            rows == self.rows(cell_h as int),
            0 <= gx <= i32::MAX,
            0 <= gy <= i32::MAX,
        ensures
            ink == self.ink_at(cell_h as int, masks@, gx as int, gy as int),
    {
        if self.at_exec(cell_h, masks, on, cols, rows, gx, gy) {
            return Ink::Fill;
        }
        let r = self.outline_px as i64;
        let mut hit = false;
        let mut dy: i64 = -r;
        while dy <= r && !hit
            invariant
                self.grid_ok(cell_h as int, masks@, on@),
                cols == self.cols(masks@),
                rows == self.rows(cell_h as int),
                r == self.spec_outline(),
                0 <= gx <= i32::MAX,
                0 <= gy <= i32::MAX,
                -r <= dy <= r + 1,
                hit ==> self.outline_hit(cell_h as int, masks@, gx as int, gy as int),
                !hit ==> forall|ddx: int, ddy: int|
                    -r <= ddx <= r && -r <= ddy < dy && (ddx != 0 || ddy != 0) ==> !#[trigger] self.at(
                        cell_h as int,
                        masks@,
                        gx + ddx,
                        gy + ddy,
                    ),
            decreases r + 1 - dy,
        {
            let mut dx: i64 = -r;
            while dx <= r && !hit
                invariant
                    self.grid_ok(cell_h as int, masks@, on@),
                    cols == self.cols(masks@),
                    rows == self.rows(cell_h as int),
                    r == self.spec_outline(),
                    0 <= gx <= i32::MAX,
                    0 <= gy <= i32::MAX,
                    -r <= dy <= r,
                    -r <= dx <= r + 1,
                    hit ==> self.outline_hit(cell_h as int, masks@, gx as int, gy as int),
                    !hit ==> forall|ddx: int, ddy: int|
                        -r <= ddx <= r && -r <= ddy <= dy && (ddy < dy || ddx < dx) && (ddx != 0 || ddy
                            != 0) ==> !#[trigger] self.at(cell_h as int, masks@, gx + ddx, gy + ddy),
                decreases r + 1 - dx,
            {
                if (dx != 0 || dy != 0) && self.at_exec(cell_h, masks, on, cols, rows, gx + dx, gy + dy) {
                    hit = true;
                }
                dx += 1;
            }
            dy += 1;
        }
        if hit {
            return Ink::Outline;
        }
        let d = self.shadow_depth as i64;
        let mut k: i64 = 1;
        let mut shade = false;
        while k <= d && !shade
            invariant
                self.grid_ok(cell_h as int, masks@, on@),
                cols == self.cols(masks@),
                rows == self.rows(cell_h as int),
                d == self.spec_shadow_depth(),
                0 <= gx <= i32::MAX,
                0 <= gy <= i32::MAX,
                1 <= k <= d + 1,
                shade ==> self.shadow_hit(cell_h as int, masks@, gx as int, gy as int),
                !shade ==> forall|kk: int| 1 <= kk < k ==> !#[trigger] self.at(cell_h as int, masks@, gx - kk, gy - kk),
            decreases d + 1 - k,
        {
            if self.at_exec(cell_h, masks, on, cols, rows, gx - k, gy - k) {
                shade = true;
            }
            k += 1;
        }
        if shade {
            Ink::Shadow
        } else {
            Ink::Transparent
        }
    }
}

impl BigText {
    /// Every grid cell's ink, row-major.
    fn ink_grid(&self, cell_h: u32, masks: &Vec<GlyphMask>, on: &Vec<bool>, cols: u32) -> (inks: Vec<Ink>)
        requires
            self.fits(cell_h as int, masks@),
            self.grid_ok(cell_h as int, masks@, on@),
            cols == self.cols(masks@),
        ensures
            self.inks_ok(cell_h as int, masks@, inks@),
    {
        proof {
            self.lemma_grid_fits(cell_h as int, masks@);
        }
        let rows = self.outline_px + cell_h + self.shadow_depth + self.outline_px;
        let mut inks: Vec<Ink> = Vec::new();
        let mut gy: u32 = 0;
        while gy < rows
            invariant
                self.fits(cell_h as int, masks@),
                self.grid_ok(cell_h as int, masks@, on@),
                cols == self.cols(masks@),
                rows == self.rows(cell_h as int),
                cols <= i32::MAX,
                rows <= i32::MAX,
                gy <= rows,
                inks@.len() == gy * cols,
                forall|xx: int, yy: int|
                    0 <= xx < cols && 0 <= yy < gy ==> #[trigger] inks@[yy * cols + xx] == self.ink_at(
                        cell_h as int,
                        masks@,
                        xx,
                        yy,
                    ),
            decreases rows - gy,
        {
            let mut gx: u32 = 0;
            while gx < cols
                invariant
                    self.fits(cell_h as int, masks@),
                    self.grid_ok(cell_h as int, masks@, on@),
                    cols == self.cols(masks@),
                    rows == self.rows(cell_h as int),
                    cols <= i32::MAX,
                    rows <= i32::MAX,
                    gy < rows,
                    gx <= cols,
                    inks@.len() == gy * cols + gx,
                    forall|xx: int, yy: int|
                        0 <= xx < cols && (0 <= yy < gy || (yy == gy && xx < gx)) ==> #[trigger] inks@[yy
                            * cols + xx] == self.ink_at(cell_h as int, masks@, xx, yy),
                decreases cols - gx,
            {
                let ink = self.ink_exec(cell_h, masks, on, cols, rows, gx as i64, gy as i64);
                let ghost before = inks@;
                inks.push(ink);
                proof {
                    assert forall|xx: int, yy: int|
                        0 <= xx < cols && (0 <= yy < gy || (yy == gy && xx < gx + 1)) implies #[trigger] inks@[yy
                        * cols + xx] == self.ink_at(cell_h as int, masks@, xx, yy) by {
                        if yy == gy && xx == gx {
                        } else {
                            crate::geometry::lemma_grid_index_injective(
                                cols as int,
                                xx,
                                yy,
                                gx as int,
                                gy as int,
                            );
                            if yy < gy {
                                assert(yy * cols + xx < gy * cols) by (nonlinear_arith)
                                    requires
                                        yy + 1 <= gy,
                                        xx < cols,
                                ;
                            }
                            assert(inks@[yy * cols + xx] == before[yy * cols + xx]);
                        }
                    }
                }
                gx += 1;
            }
            proof {
                assert(gy * cols + cols == (gy + 1) * cols) by (nonlinear_arith);
            }
            gy += 1;
        }
        proof {
            assert(inks@.len() == cols * rows) by (nonlinear_arith)
                requires
                    inks@.len() == gy * cols,
                    gy == rows,
            ;
        }
        inks
    }

    /// Bake `masks` (a `cell_h` tall source's glyphs, in order) into the
    /// banner sprite: every pixel is its source cell's ink colour.
    pub fn bake(&self, cell_h: u32, masks: &Vec<GlyphMask>) -> (s: Sprite)
        requires
            self.fits(cell_h as int, masks@),
        ensures
            s.wf(),
            s.dims().w == self.cols(masks@) * self.spec_scale(),
            s.dims().h == self.rows(cell_h as int) * self.spec_scale(),
            forall|x: int, y: int|
                s.dims().holds(x, y) ==> #[trigger] s.cell(x, y) == self.pixel(cell_h as int, masks@, x, y),
    {
        proof {
            self.lemma_grid_fits(cell_h as int, masks@);
        }
        let (xs, cols) = self.line(cell_h, masks);
        let on = self.cover_grid(cell_h, masks, &xs, cols);
        let inks = self.ink_grid(cell_h, masks, &on, cols);
        let rows = self.outline_px + cell_h + self.shadow_depth + self.outline_px;
        let scale = self.scale;
        let w = cols * scale;
        let h = rows * scale;
        let mut sprite = Sprite::new(Size::new(w, h));
        let mut y: u32 = 0;
        while y < h
            invariant
                self.fits(cell_h as int, masks@),
                self.inks_ok(cell_h as int, masks@, inks@),
                cols == self.cols(masks@),
                rows == self.rows(cell_h as int),
                scale == self.spec_scale(),
                scale >= 1,
                w == cols * scale,
                h == rows * scale,
                sprite.wf(),
                sprite.dims() == (Size { w, h }),
                y <= h,
                forall|px: int, py: int|
                    sprite.dims().holds(px, py) ==> #[trigger] sprite.cell(px, py) == if py < y {
                        self.pixel(cell_h as int, masks@, px, py)
                    } else {
                        Color(0)
                    },
            decreases h - y,
        {
            let mut x: u32 = 0;
            while x < w
                invariant
                    self.fits(cell_h as int, masks@),
                    self.inks_ok(cell_h as int, masks@, inks@),
                    cols == self.cols(masks@),
                    rows == self.rows(cell_h as int),
                    scale == self.spec_scale(),
                    scale >= 1,
                    w == cols * scale,
                    h == rows * scale,
                    sprite.wf(),
                    sprite.dims() == (Size { w, h }),
                    y < h,
                    x <= w,
                    forall|px: int, py: int|
                        sprite.dims().holds(px, py) ==> #[trigger] sprite.cell(px, py) == if py < y || (py
                            == y && px < x) {
                            self.pixel(cell_h as int, masks@, px, py)
                        } else {
                            Color(0)
                        },
                decreases w - x,
            {
                let gx = x / scale;
                let gy = y / scale;
                proof {
                    assert(gx < cols && gy < rows) by (nonlinear_arith)
                        requires
                            gx == x / scale,
                            gy == y / scale,
                            x < cols * scale,
                            y < rows * scale,
                            scale >= 1,
                    ;
                    crate::geometry::lemma_grid_index(cols as int, rows as int, gx as int, gy as int);
                }
                let n = inks.len();
                let ink = inks[(gy as usize) * (cols as usize) + (gx as usize)];
                let c = self.colors.of(ink);
                if c.is_visible() {
                    sprite.put(x, y, c);
                }
                x += 1;
            }
            y += 1;
        }
        sprite
    }
}

/// Whether a mask has ink on some row at or below `from`.
fn ink_from_row(m: &GlyphMask, from: u32) -> (b: bool)
    requires
        m.wf(),
    ensures
        b == exists|x: int, y: int| from <= y && #[trigger] m.ink(x, y),
{
    let mut y = from;
    while y < m.height
        invariant
            m.wf(),
            from <= y,
            forall|xx: int, yy: int| from <= yy < y ==> !#[trigger] m.ink(xx, yy),
        decreases m.height - y,
    {
        let mut x: u32 = 0;
        while x < m.width
            invariant
                m.wf(),
                from <= y < m.height,
                x <= m.width,
                forall|xx: int, yy: int|
                    (from <= yy < y || (yy == y && 0 <= xx < x)) ==> !#[trigger] m.ink(xx, yy),
            decreases m.width - x,
        {
            if m.get(x, y) {
                return true;
            }
            x += 1;
        }
        y += 1;
    }
    false
}

/// Whether a mask's flags cover its box and the box's cells count as a `u32`.
fn mask_wf(m: &GlyphMask) -> (b: bool)
    ensures
        b == m.wf(),
{
    let cells = crate::geometry::mul_u32(m.width, m.height);
    cells <= 0xffff_ffff && m.on.len() as u64 == cells
}

impl BigText {
    /// The grid's column count when the pen walk stays in range, else `None`.
    fn checked_cols(&self, cell_h: u32, masks: &Vec<GlyphMask>) -> (r: Option<u32>)
        ensures
            match r {
                Some(c) => self.line_ok(cell_h as int, masks@) && c == self.cols(masks@),
                None => !self.line_ok(cell_h as int, masks@),
            },
    {
        let ghost ms = masks@;
        let ghost tt = self.tracking as int;
        let t = self.tracking as i128;
        if t > 0x7fff_ffff {
            return None;
        }
        let n = masks.len();
        let mut pen_x: i128 = 0;
        let mut lo: i128 = 0;
        let mut hi: i128 = 0;
        let mut k: usize = 0;
        while k < n
            invariant
                ms == masks@,
                n == ms.len(),
                tt == self.spec_tracking(),
                t == tt,
                t <= i32::MAX,
                k <= n,
                pen_x == pen(ms, tt, k as int),
                lo == ink_lo(ms, tt, k as int),
                hi == box_hi(ms, tt, k as int),
                i32::MIN <= lo <= 0,
                0 <= hi <= i32::MAX,
                forall|j: int| 0 <= j < k ==> (#[trigger] ms[j]).wf(),
                forall|j: int| 0 <= j < k ==> (#[trigger] ms[j]).advance + tt <= i32::MAX,
                forall|j: int| 0 <= j < k ==> (#[trigger] ms[j]).width <= i32::MAX,
                forall|j: int| 0 <= j <= k ==> i32::MIN <= #[trigger] pen(ms, tt, j) <= i32::MAX,
                forall|j: int| 0 <= j < k ==> i32::MIN <= #[trigger] left(ms, tt, j) <= i32::MAX,
                forall|j: int|
                    0 <= j < k ==> i32::MIN <= #[trigger] left(ms, tt, j) + ms[j].width <= i32::MAX,
            decreases n - k,
        {
            let m = &masks[k];
            if !mask_wf(m) {
                return None;
            }
            if m.advance as i128 + t > 0x7fff_ffff {
                return None;
            }
            if m.width as i128 > 0x7fff_ffff {
                return None;
            }
            let l = pen_x + m.x_offset as i128;
            if l < -0x8000_0000 || l > 0x7fff_ffff {
                proof {
                    assert(left(ms, tt, k as int) == l);
                }
                return None;
            }
            let r = l + m.width as i128;
            if r < -0x8000_0000 || r > 0x7fff_ffff {
                proof {
                    assert(left(ms, tt, k as int) + ms[k as int].width == r);
                }
                return None;
            }
            if l < lo {
                lo = l;
            }
            if r > hi {
                hi = r;
            }
            let next = pen_x + m.advance as i128 + t;
            if next < -0x8000_0000 || next > 0x7fff_ffff {
                proof {
                    assert(pen(ms, tt, k + 1) == next);
                }
                return None;
            }
            pen_x = next;
            k += 1;
        }
        if pen_x > hi {
            hi = pen_x;
        }
        if hi - lo > 0x7fff_ffff {
            return None;
        }
        let p = self.outline_px as i128;
        let cols = p + (hi - lo) + p + self.shadow_depth as i128 + self.gap as i128;
        let rows = p + cell_h as i128 + self.shadow_depth as i128 + p;
        if cols > 0xffff_ffff || rows > 0xffff_ffff {
            return None;
        }
        Some(cols as u32)
    }

    /// Whether the bake of `masks` is in range (see [`fits`](Self::fits)).
    pub fn fits_exec(&self, cell_h: u32, masks: &Vec<GlyphMask>) -> (b: bool)
        ensures
            b == self.fits(cell_h as int, masks@),
    {
        if self.scale == 0 {
            return false;
        }
        let cols = match self.checked_cols(cell_h, masks) {
            Some(c) => c,
            None => {
                return false;
            },
        };
        let p = self.outline_px as u64;
        let rows = p + cell_h as u64 + self.shadow_depth as u64 + p;
        let from = rows - p;
        let mut k: usize = 0;
        while k < masks.len()
            invariant
                self.line_ok(cell_h as int, masks@),
                rows == self.rows(cell_h as int),
                p == self.spec_outline(),
                from == rows - p,
                k <= masks@.len(),
                forall|j: int, x: int, y: int|
                    0 <= j < k && #[trigger] masks@[j].ink(x, y) ==> p + y < rows,
            decreases masks@.len() - k,
        {
            proof {
                assert(masks@[k as int].wf());
            }
            if ink_from_row(&masks[k], from as u32) {
                return false;
            }
            k += 1;
        }
        let w = crate::geometry::mul_u32(cols, self.scale);
        let h = crate::geometry::mul_u32(rows as u32, self.scale);
        if w > 0x7fff_ffff || h > 0x7fff_ffff {
            return false;
        }
        let area = crate::geometry::mul_u32(w as u32, h as u32);
        area as u128 <= usize::MAX as u128
    }
}

impl BigText {
    /// A fitting bake's grid dimensions are `i32` values.
    pub proof fn lemma_grid_fits(self, cell_h: int, masks: Seq<GlyphMask>)
        requires
            self.fits(cell_h, masks),
        ensures
            0 <= self.cols(masks) <= i32::MAX,
            0 <= self.rows(cell_h) <= i32::MAX,
    {
        let s = self.spec_scale() as int;
        let t = self.spec_tracking() as int;
        let n = masks.len() as int;
        assert(ink_lo(masks, t, n) <= 0) by {
            lemma_lo_nonpos(masks, t, n);
        }
        assert(ink_hi(masks, t) >= 0) by {
            lemma_hi_nonneg(masks, t, n);
        }
        let c = self.cols(masks);
        let r = self.rows(cell_h);
        assert(c <= c * s) by (nonlinear_arith)
            requires
                c >= 0,
                s >= 1,
        ;
        assert(r <= r * s) by (nonlinear_arith)
            requires
                r >= 0,
                s >= 1,
        ;
    }
}

proof fn lemma_lo_nonpos(masks: Seq<GlyphMask>, t: int, n: int)
    ensures
        ink_lo(masks, t, n) <= 0,
    decreases n,
{
    if n > 0 {
        lemma_lo_nonpos(masks, t, n - 1);
    }
}

proof fn lemma_hi_nonneg(masks: Seq<GlyphMask>, t: int, n: int)
    ensures
        box_hi(masks, t, n) >= 0,
    decreases n,
{
    if n > 0 {
        lemma_hi_nonneg(masks, t, n - 1);
    }
}

/// Every box lies between the ends of the line.
pub proof fn lemma_line_bounds(masks: Seq<GlyphMask>, t: int, k: int)
    requires
        0 <= k < masks.len(),
    ensures
        ink_lo(masks, t, masks.len() as int) <= left(masks, t, k),
        left(masks, t, k) + masks[k].width <= ink_hi(masks, t),
{
    lemma_lo_below(masks, t, k, masks.len() as int);
    lemma_hi_above(masks, t, k, masks.len() as int);
}

proof fn lemma_lo_below(masks: Seq<GlyphMask>, t: int, k: int, n: int)
    requires
        0 <= k < n,
    ensures
        ink_lo(masks, t, n) <= left(masks, t, k),
    decreases n,
{
    if n > k + 1 {
        lemma_lo_below(masks, t, k, n - 1);
    }
}

proof fn lemma_hi_above(masks: Seq<GlyphMask>, t: int, k: int, n: int)
    requires
        0 <= k < n,
    ensures
        left(masks, t, k) + masks[k].width <= box_hi(masks, t, n),
    decreases n,
{
    if n > k + 1 {
        lemma_hi_above(masks, t, k, n - 1);
    }
}

/// `m` is `font8x8`'s fixed-pitch 8×8 mask of `ch`.
pub open spec fn is_bitmap_mask(m: GlyphMask, ch: char) -> bool {
    &&& m.wf()
    &&& m.width == 8
    &&& m.height == 8
    &&& m.x_offset == 0
    &&& m.advance == 8
    &&& forall|row: int, col: int|
        0 <= row < 8 && 0 <= col < 8 ==> #[trigger] m.ink(col, row) == bitmap_ink(ch, row, col)
}

/// Two mask sequences agree glyph by glyph, by their views.
pub open spec fn same_views(m1: Seq<GlyphMask>, m2: Seq<GlyphMask>) -> bool {
    &&& m1.len() == m2.len()
    &&& forall|k: int| 0 <= k < m1.len() ==> (#[trigger] m1[k])@ == m2[k]@
}

/// The pen walk depends on the masks only through their views.
pub proof fn lemma_pen_views(m1: Seq<GlyphMask>, m2: Seq<GlyphMask>, t: int, k: int)
    requires
        same_views(m1, m2),
        k <= m1.len(),
    ensures
        pen(m1, t, k) == pen(m2, t, k),
        ink_lo(m1, t, k) == ink_lo(m2, t, k),
        box_hi(m1, t, k) == box_hi(m2, t, k),
    decreases k,
{
    if k > 0 {
        lemma_pen_views(m1, m2, t, k - 1);
        assert(m1[k - 1]@ == m2[k - 1]@);
    }
}

/// Law: one source draws one text one way — any two glyph sequences it
/// answers for the same text agree glyph by glyph.
pub proof fn law_one_source_draws_one_way<S: GlyphSource + ?Sized>(
    source: &S,
    text: Seq<char>,
    m1: Seq<GlyphMask>,
    m2: Seq<GlyphMask>,
)
    requires
        m1.len() == text.len(),
        m2.len() == text.len(),
        forall|k: int| 0 <= k < m1.len() ==> (#[trigger] m1[k])@ =~= source.spec_glyph(text[k]),
        forall|k: int| 0 <= k < m2.len() ==> (#[trigger] m2[k])@ =~= source.spec_glyph(text[k]),
    ensures
        same_views(m1, m2),
{
    assert forall|k: int| 0 <= k < m1.len() implies (#[trigger] m1[k])@ == m2[k]@ by {
        assert(m1[k]@ =~= source.spec_glyph(text[k]));
        assert(m2[k]@ =~= source.spec_glyph(text[k]));
    }
}

/// Law: a footprint measured over one set of glyphs is the area of the
/// sprite baked from any glyphs with the same views — in particular, of
/// [`BigText::build_with`] on the source [`BigText::footprint`] measured.
pub proof fn law_footprint_measures_the_build(
    b: BigText,
    cell_h: int,
    m1: Seq<GlyphMask>,
    m2: Seq<GlyphMask>,
    s: Sprite,
)
    requires
        same_views(m1, m2),
        b.fits(cell_h, m2),
        b.baked(s, cell_h, m2),
    ensures
        b.cols(m1) * b.rows(cell_h) * b.spec_scale() * b.spec_scale() == s.dims().w * s.dims().h,
{
    law_views_decide_the_bake(b, cell_h, m1, m2);
    law_footprint_matches_the_bake(b, cell_h, m2, s);
}

/// Law: a bake is decided by its glyphs' views. Two mask sequences that agree
/// glyph by glyph — say, two calls of one source on one text — give the same
/// grid, the same range checks, and the same baked sprites.
pub proof fn law_views_decide_the_bake(b: BigText, cell_h: int, m1: Seq<GlyphMask>, m2: Seq<GlyphMask>)
    requires
        same_views(m1, m2),
    ensures
        b.cols(m1) == b.cols(m2),
        b.line_ok(cell_h, m1) == b.line_ok(cell_h, m2),
        b.fits(cell_h, m1) == b.fits(cell_h, m2),
        forall|s: Sprite| b.baked(s, cell_h, m1) == b.baked(s, cell_h, m2),
{
    let t = b.spec_tracking() as int;
    let n = m1.len() as int;
    assert forall|k: int| 0 <= k <= n implies pen(m1, t, k) == pen(m2, t, k) && ink_lo(m1, t, k)
        == ink_lo(m2, t, k) && box_hi(m1, t, k) == box_hi(m2, t, k) by {
        lemma_pen_views(m1, m2, t, k);
    }
    assert forall|k: int| 0 <= k < n implies {
        &&& m1[k].width == m2[k].width
        &&& m1[k].height == m2[k].height
        &&& m1[k].advance == m2[k].advance
        &&& m1[k].x_offset == m2[k].x_offset
        &&& m1[k].on@ == m2[k].on@
        &&& m1[k].wf() == m2[k].wf()
        &&& left(m1, t, k) == left(m2, t, k)
    } by {
        assert(m1[k]@ == m2[k]@);
        lemma_pen_views(m1, m2, t, k);
    }
    assert forall|k: int, x: int, y: int| 0 <= k < n implies m1[k].ink(x, y) == m2[k].ink(x, y) by {
        assert(m1[k]@ == m2[k]@);
    }
    assert(b.cols(m1) == b.cols(m2)) by {
        lemma_pen_views(m1, m2, t, n);
    }
    assert forall|k: int| 0 <= k < n implies b.xpos(m1, k) == b.xpos(m2, k) by {
        lemma_pen_views(m1, m2, t, n);
        lemma_pen_views(m1, m2, t, k);
    }
    assert forall|gx: int, gy: int| b.covered(m1, gx, gy) == b.covered(m2, gx, gy) by {
        if b.covered(m1, gx, gy) {
            let k = choose|k: int| 0 <= k < m1.len() && #[trigger] m1[k].ink(
                gx - b.xpos(m1, k),
                gy - b.spec_outline(),
            );
            assert(m2[k].ink(gx - b.xpos(m2, k), gy - b.spec_outline()));
        }
        if b.covered(m2, gx, gy) {
            let k = choose|k: int| 0 <= k < m2.len() && #[trigger] m2[k].ink(
                gx - b.xpos(m2, k),
                gy - b.spec_outline(),
            );
            assert(m1[k].ink(gx - b.xpos(m1, k), gy - b.spec_outline()));
        }
    }
    assert forall|gx: int, gy: int| #[trigger] b.at(cell_h, m1, gx, gy) == b.at(cell_h, m2, gx, gy) by {}
    assert forall|gx: int, gy: int| #[trigger] b.ink_at(cell_h, m1, gx, gy) == b.ink_at(cell_h, m2, gx, gy) by {
        if b.outline_hit(cell_h, m1, gx, gy) {
            let (dx, dy) = choose|dx: int, dy: int|
                -(b.spec_outline() as int) <= dx <= b.spec_outline() && -(b.spec_outline() as int) <= dy
                    <= b.spec_outline() && (dx != 0 || dy != 0) && #[trigger] b.at(
                    cell_h,
                    m1,
                    gx + dx,
                    gy + dy,
                );
            assert(b.at(cell_h, m2, gx + dx, gy + dy));
        }
        if b.outline_hit(cell_h, m2, gx, gy) {
            let (dx, dy) = choose|dx: int, dy: int|
                -(b.spec_outline() as int) <= dx <= b.spec_outline() && -(b.spec_outline() as int) <= dy
                    <= b.spec_outline() && (dx != 0 || dy != 0) && #[trigger] b.at(
                    cell_h,
                    m2,
                    gx + dx,
                    gy + dy,
                );
            assert(b.at(cell_h, m1, gx + dx, gy + dy));
        }
        if b.shadow_hit(cell_h, m1, gx, gy) {
            let k = choose|k: int|
                1 <= k <= b.spec_shadow_depth() && #[trigger] b.at(cell_h, m1, gx - k, gy - k);
            assert(b.at(cell_h, m2, gx - k, gy - k));
        }
        if b.shadow_hit(cell_h, m2, gx, gy) {
            let k = choose|k: int|
                1 <= k <= b.spec_shadow_depth() && #[trigger] b.at(cell_h, m2, gx - k, gy - k);
            assert(b.at(cell_h, m1, gx - k, gy - k));
        }
    }
    assert forall|x: int, y: int| #[trigger] b.pixel(cell_h, m1, x, y) == b.pixel(cell_h, m2, x, y) by {
        assert(b.ink_at(cell_h, m1, x / b.spec_scale() as int, y / b.spec_scale() as int) == b.ink_at(
            cell_h,
            m2,
            x / b.spec_scale() as int,
            y / b.spec_scale() as int,
        ));
    }
    assert(b.line_ok(cell_h, m1) == b.line_ok(cell_h, m2)) by {
        lemma_pen_views(m1, m2, t, n);
        if b.line_ok(cell_h, m1) {
            assert forall|k: int| 0 <= k < n implies (#[trigger] m2[k]).wf() && m2[k].advance + t
                <= i32::MAX && m2[k].width <= i32::MAX && i32::MIN <= left(m2, t, k) <= i32::MAX
                && i32::MIN <= left(m2, t, k) + m2[k].width <= i32::MAX by {
                assert(m1[k].wf());
                assert(i32::MIN <= left(m1, t, k) <= i32::MAX);
                assert(i32::MIN <= left(m1, t, k) + m1[k].width <= i32::MAX);
            }
            assert forall|k: int| 0 <= k <= n implies i32::MIN <= #[trigger] pen(m2, t, k) <= i32::MAX by {
                assert(i32::MIN <= pen(m1, t, k) <= i32::MAX);
            }
        }
        if b.line_ok(cell_h, m2) {
            assert forall|k: int| 0 <= k < n implies (#[trigger] m1[k]).wf() && m1[k].advance + t
                <= i32::MAX && m1[k].width <= i32::MAX && i32::MIN <= left(m1, t, k) <= i32::MAX
                && i32::MIN <= left(m1, t, k) + m1[k].width <= i32::MAX by {
                assert(m2[k].wf());
                assert(i32::MIN <= left(m2, t, k) <= i32::MAX);
                assert(i32::MIN <= left(m2, t, k) + m2[k].width <= i32::MAX);
            }
            assert forall|k: int| 0 <= k <= n implies i32::MIN <= #[trigger] pen(m1, t, k) <= i32::MAX by {
                assert(i32::MIN <= pen(m2, t, k) <= i32::MAX);
            }
        }
    }
    assert(b.ink_in_rows(cell_h, m1) == b.ink_in_rows(cell_h, m2)) by {
        if b.ink_in_rows(cell_h, m1) {
            assert forall|k: int, x: int, y: int|
                0 <= k < m2.len() && #[trigger] m2[k].ink(x, y) implies b.spec_outline() + y < b.rows(
                cell_h,
            ) by {
                assert(m1[k].ink(x, y));
            }
        }
        if b.ink_in_rows(cell_h, m2) {
            assert forall|k: int, x: int, y: int|
                0 <= k < m1.len() && #[trigger] m1[k].ink(x, y) implies b.spec_outline() + y < b.rows(
                cell_h,
            ) by {
                assert(m2[k].ink(x, y));
            }
        }
    }
}

/// The glyphs `source` hands out for each character of `text`, in order.
pub(crate) fn glyphs_of<S: GlyphSource + ?Sized>(source: &S, text: &str) -> (ms: Vec<GlyphMask>)
    ensures
        ms@.len() == text@.len(),
        forall|k: int| 0 <= k < ms@.len() ==> (#[trigger] ms@[k]).wf(),
        forall|k: int| 0 <= k < ms@.len() ==> (#[trigger] ms@[k])@ =~= source.spec_glyph(text@[k]),
{
    let n = text.unicode_len();
    let mut ms: Vec<GlyphMask> = Vec::new();
    let mut i: usize = 0;
    while i < n
        invariant
            n == text@.len(),
            i <= n,
            ms@.len() == i,
            forall|k: int| 0 <= k < ms@.len() ==> (#[trigger] ms@[k]).wf(),
            forall|k: int| 0 <= k < ms@.len() ==> (#[trigger] ms@[k])@ =~= source.spec_glyph(text@[k]),
        decreases n - i,
    {
        let c = text.get_char(i);
        ms.push(source.glyph(c));
        i += 1;
    }
    ms
}

/// `font8x8`'s glyphs for each character of `text`, in order.
fn bitmap_glyphs(text: &str) -> (ms: Vec<GlyphMask>)
    ensures
        ms@.len() == text@.len(),
        forall|k: int| 0 <= k < ms@.len() ==> is_bitmap_mask(#[trigger] ms@[k], text@[k]),
{
    let n = text.unicode_len();
    let mut ms: Vec<GlyphMask> = Vec::new();
    let mut i: usize = 0;
    while i < n
        invariant
            n == text@.len(),
            i <= n,
            ms@.len() == i,
            forall|k: int| 0 <= k < ms@.len() ==> is_bitmap_mask(#[trigger] ms@[k], text@[k]),
        decreases n - i,
    {
        let c = text.get_char(i);
        ms.push(Bitmap8x8.glyph(c));
        i += 1;
    }
    ms
}

/// On a line of 8×8 fixed-pitch glyphs every pen step is `8 + t`, nothing
/// reaches left of the origin, and the boxes end 8 past the last pen.
pub proof fn lemma_bitmap_line(masks: Seq<GlyphMask>, t: int, k: int)
    requires
        t >= 0,
        0 <= k <= masks.len(),
        forall|j: int| 0 <= j < masks.len() ==> (#[trigger] masks[j]).advance == 8 && masks[j].width
            == 8 && masks[j].x_offset == 0,
    ensures
        pen(masks, t, k) == k * (8 + t),
        ink_lo(masks, t, k) == 0,
        box_hi(masks, t, k) == (if k == 0 { 0 } else { (k - 1) * (8 + t) + 8 }),
    decreases k,
{
    if k > 0 {
        lemma_bitmap_line(masks, t, k - 1);
        assert(masks[k - 1].advance == 8 && masks[k - 1].width == 8 && masks[k - 1].x_offset == 0);
        assert((k - 1) * (8 + t) + (8 + t) == k * (8 + t)) by (nonlinear_arith);
        if k > 1 {
            assert((k - 2) * (8 + t) + 8 <= (k - 1) * (8 + t)) by (nonlinear_arith)
                requires
                    t >= 0,
                    k >= 2,
            ;
        }
        assert((k - 1) * (8 + t) >= 0) by (nonlinear_arith)
            requires
                t >= 0,
                k >= 1,
        ;
    }
}

impl BigText {
    /// `s` is the bake of `masks` from a `cell_h` tall source.
    pub open spec fn baked(self, s: Sprite, cell_h: int, masks: Seq<GlyphMask>) -> bool {
        &&& s.wf()
        &&& s.dims().w == self.cols(masks) * self.spec_scale()
        &&& s.dims().h == self.rows(cell_h) * self.spec_scale()
        &&& forall|x: int, y: int|
            s.dims().holds(x, y) ==> #[trigger] s.cell(x, y) == self.pixel(cell_h, masks, x, y)
    }

    /// The grid columns of `n` 8×8 glyphs: pads, the line, shadow and gap.
    pub open spec fn bitmap_cols(self, n: int) -> int {
        2 * self.spec_outline() + n * (8 + self.spec_tracking()) + self.spec_shadow_depth()
            + self.spec_gap()
    }

    /// A banner of `n` 8×8 glyphs is in range: the pen line fits `i32`, and
    /// so do the scaled sprite's coordinates and size.
    pub open spec fn bitmap_fits(self, n: int) -> bool {
        let s = self.spec_scale() as int;
        &&& s >= 1
        &&& 8 + self.spec_tracking() <= i32::MAX
        &&& n * (8 + self.spec_tracking()) <= i32::MAX
        &&& self.bitmap_cols(n) * s <= i32::MAX
        &&& self.rows(8) * s <= i32::MAX
        &&& self.bitmap_cols(n) * s * (self.rows(8) * s) <= usize::MAX
    }

    /// A banner of 8×8 glyphs that is in range by [`bitmap_fits`](Self::bitmap_fits)
    /// meets [`fits`](Self::fits), with the closed-form column count.
    pub proof fn lemma_bitmap_fits(self, masks: Seq<GlyphMask>, text: Seq<char>)
        requires
            masks.len() == text.len(),
            forall|k: int| 0 <= k < masks.len() ==> is_bitmap_mask(#[trigger] masks[k], text[k]),
            self.bitmap_fits(masks.len() as int),
        ensures
            self.fits(8, masks),
            self.cols(masks) == self.bitmap_cols(masks.len() as int),
    {
        let t = self.spec_tracking() as int;
        let n = masks.len() as int;
        let u = 8 + t;
        assert forall|j: int| 0 <= j < n implies (#[trigger] masks[j]).advance == 8 && masks[j].width == 8
            && masks[j].x_offset == 0 by {
            assert(is_bitmap_mask(masks[j], text[j]));
        }
        lemma_bitmap_line(masks, t, n);
        assert(n * u >= 0) by (nonlinear_arith)
            requires
                n >= 0,
                u >= 8,
        ;
        assert forall|k: int| 0 <= k <= n implies i32::MIN <= #[trigger] pen(masks, t, k) <= i32::MAX by {
            lemma_bitmap_line(masks, t, k);
            assert(0 <= k * u <= n * u) by (nonlinear_arith)
                requires
                    0 <= k <= n,
                    u >= 8,
            ;
        }
        assert forall|k: int| 0 <= k < n implies i32::MIN <= #[trigger] left(masks, t, k) <= i32::MAX
            && i32::MIN <= left(masks, t, k) + masks[k].width <= i32::MAX by {
            lemma_bitmap_line(masks, t, k);
            assert(0 <= k * u && k * u + 8 <= n * u) by (nonlinear_arith)
                requires
                    0 <= k < n,
                    u >= 8,
            ;
        }
        assert forall|k: int| 0 <= k < n implies (#[trigger] masks[k]).advance + t <= i32::MAX && masks[k].width
            <= i32::MAX && masks[k].wf() by {
            assert(is_bitmap_mask(masks[k], text[k]));
        }
        if n > 0 {
            assert((n - 1) * u + 8 <= n * u) by (nonlinear_arith)
                requires
                    n >= 1,
                    u >= 8,
            ;
        }
        assert(ink_hi(masks, t) == n * u);
        assert(self.cols(masks) == self.bitmap_cols(n));
        let s = self.spec_scale() as int;
        let c = self.cols(masks);
        let r = self.rows(8);
        assert(c <= c * s && r <= r * s) by (nonlinear_arith)
            requires
                c >= 0,
                r >= 0,
                s >= 1,
        ;
        assert forall|k: int, x: int, y: int|
            0 <= k < n && #[trigger] masks[k].ink(x, y) implies self.spec_outline() + y < self.rows(8) by {
            assert(is_bitmap_mask(masks[k], text[k]));
        }
    }

    /// Rasterise `text` with the default 8×8 source ([`Bitmap8x8`]).
    /// Unknown / non-ASCII characters render blank.
    pub fn build(&self, text: &str) -> (s: Sprite)
        requires
            self.bitmap_fits(text@.len() as int),
        ensures
            exists|masks: Seq<GlyphMask>|
                {
                    &&& masks.len() == text@.len()
                    &&& forall|k: int|
                        0 <= k < masks.len() ==> is_bitmap_mask(#[trigger] masks[k], text@[k])
                    &&& self.fits(8, masks)
                    &&& self.baked(s, 8, masks)
                },
    {
        let masks = bitmap_glyphs(text);
        proof {
            self.lemma_bitmap_fits(masks@, text@);
        }
        self.bake(8, &masks)
    }

    /// Rasterise `text` with `source`'s glyphs — its cell height and its mask
    /// for each character — into the bake of those glyphs, or `None` when the
    /// banner they make is out of range (see [`fits`](Self::fits)). By
    /// [`law_views_decide_the_bake`], those glyphs decide the result.
    pub fn build_with<S: GlyphSource + ?Sized>(&self, source: &S, text: &str) -> (r: Option<Sprite>)
        ensures
            exists|cell_h: u32, masks: Seq<GlyphMask>|
                {
                    &&& cell_h == source.spec_cell_height()
                    &&& masks.len() == text@.len()
                    &&& forall|k: int| 0 <= k < masks.len() ==> (#[trigger] masks[k]).wf()
                    &&& forall|k: int|
                        0 <= k < masks.len() ==> (#[trigger] masks[k])@ =~= source.spec_glyph(text@[k])
                    &&& match r {
                        Some(s) => self.fits(cell_h as int, masks) && self.baked(s, cell_h as int, masks),
                        None => !self.fits(cell_h as int, masks),
                    }
                },
    {
        let cell_h = source.cell_height();
        let masks = glyphs_of(source, text);
        let r = if self.fits_exec(cell_h, &masks) {
            Some(self.bake(cell_h, &masks))
        } else {
            None
        };
        proof {
            let ms = masks@;
            assert(forall|k: int| 0 <= k < ms.len() ==> (#[trigger] ms[k])@ =~= source.spec_glyph(text@[k]));
            assert(forall|k: int| 0 <= k < ms.len() ==> (#[trigger] ms[k]).wf());
        }
        r
    }

    /// The size a bake of `masks` would allocate, without allocating it:
    /// `None` when the pen walk leaves range or the scaled size passes `u64`.
    pub fn measure(&self, cell_h: u32, masks: &Vec<GlyphMask>) -> (fp: Option<Footprint>)
        ensures
            match fp {
                Some(f) => {
                    &&& self.line_ok(cell_h as int, masks@)
                    &&& f.source_cells == self.cols(masks@) * self.rows(cell_h as int)
                    &&& f.scaled_pixels == self.cols(masks@) * self.rows(cell_h as int)
                        * self.spec_scale() * self.spec_scale()
                },
                None => !self.line_ok(cell_h as int, masks@) || self.cols(masks@) * self.rows(
                    cell_h as int,
                ) * self.spec_scale() * self.spec_scale() > u64::MAX,
            },
    {
        let cols = match self.checked_cols(cell_h, masks) {
            Some(c) => c,
            None => {
                return None;
            },
        };
        let p = self.outline_px as u64;
        let rows = p + cell_h as u64 + self.shadow_depth as u64 + p;
        let cells = crate::geometry::mul_u32(cols, rows as u32);
        let s = self.scale as u128;
        proof {
            assert(cells as int * s <= u64::MAX * u32::MAX) by (nonlinear_arith)
                requires
                    cells <= u64::MAX,
                    s <= u32::MAX,
            ;
            assert(cells as int * s * s <= u64::MAX * u32::MAX * u32::MAX) by (nonlinear_arith)
                requires
                    cells * s <= u64::MAX * u32::MAX,
                    0 <= s <= u32::MAX,
            ;
        }
        let scaled = cells as u128 * s * s;
        if scaled > 0xffff_ffff_ffff_ffff {
            return None;
        }
        Some(Footprint { source_cells: cells, scaled_pixels: scaled as u64 })
    }

    /// The size a [`build_with`](Self::build_with) bake would allocate, measured
    /// without allocating it; `None` as for [`measure`](Self::measure).
    pub fn footprint<S: GlyphSource + ?Sized>(&self, source: &S, text: &str) -> (fp: Option<Footprint>)
        ensures
            exists|cell_h: u32, masks: Seq<GlyphMask>|
                {
                    &&& cell_h == source.spec_cell_height()
                    &&& masks.len() == text@.len()
                    &&& forall|k: int| 0 <= k < masks.len() ==> (#[trigger] masks[k]).wf()
                    &&& forall|k: int|
                        0 <= k < masks.len() ==> (#[trigger] masks[k])@ =~= source.spec_glyph(text@[k])
                    &&& match fp {
                        Some(f) => {
                            &&& self.line_ok(cell_h as int, masks)
                            &&& f.source_cells == self.cols(masks) * self.rows(cell_h as int)
                            &&& f.scaled_pixels == self.cols(masks) * self.rows(cell_h as int)
                                * self.spec_scale() * self.spec_scale()
                        },
                        None => !self.line_ok(cell_h as int, masks) || self.cols(masks) * self.rows(
                            cell_h as int,
                        ) * self.spec_scale() * self.spec_scale() > u64::MAX,
                    }
                },
    {
        let cell_h = source.cell_height();
        let masks = glyphs_of(source, text);
        let fp = self.measure(cell_h, &masks);
        proof {
            let ms = masks@;
            assert(forall|k: int| 0 <= k < ms.len() ==> (#[trigger] ms[k])@ =~= source.spec_glyph(text@[k]));
            assert(forall|k: int| 0 <= k < ms.len() ==> (#[trigger] ms[k]).wf());
        }
        fp
    }
}

/// A footprint measures the bake it predicts: whenever the banner bakes, the
/// measured scaled pixels are exactly the baked sprite's area.
pub proof fn law_footprint_matches_the_bake(b: BigText, cell_h: int, masks: Seq<GlyphMask>, s: Sprite)
    requires
        b.fits(cell_h, masks),
        b.baked(s, cell_h, masks),
    ensures
        b.cols(masks) * b.rows(cell_h) * b.spec_scale() * b.spec_scale() == s.dims().w * s.dims().h,
{
    let c = b.cols(masks);
    let r = b.rows(cell_h);
    let k = b.spec_scale() as int;
    assert(c * r * k * k == (c * k) * (r * k)) by (nonlinear_arith);
}
} // verus!
