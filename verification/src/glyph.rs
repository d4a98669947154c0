//! Glyph sources for the pixel-art text renderer.
//!
//! [`BigText`](crate::text::BigText) is source-agnostic: it lays out, outlines,
//! shadows, and integer-scales a grid of 1-bit "on" cells. A [`GlyphSource`]
//! supplies those cells per character. `font8x8` is one source
//! ([`Bitmap8x8`], the chunky retro default).

use vstd::prelude::*;

use crate::color::Color;
use crate::geometry::Size;
use crate::sprite::Sprite;

verus! {

/// One character's 1-bit coverage box plus its placement on the pen.
///
/// `on` is row-major, length `width * height`, `true` = ink. `x_offset` is the
/// box's left edge relative to the pen origin (the left side bearing, possibly
/// negative); the pen moves on by `advance`.
#[derive(Debug, Clone)]
pub struct GlyphMask {
    pub width: u32,
    pub height: u32,
    pub on: Vec<bool>,
    /// Horizontal offset from the pen origin to the ink box's left edge.
    pub x_offset: i32,
    /// Horizontal pen advance to the next glyph's origin.
    pub advance: u32,
}

impl View for GlyphMask {
    /// Width, height, the ink flags, the left side bearing and the advance.
    type V = (u32, u32, Seq<bool>, i32, u32);

    open spec fn view(&self) -> (u32, u32, Seq<bool>, i32, u32) {
        (self.width, self.height, self.on@, self.x_offset, self.advance)
    }
}

impl GlyphMask {
    /// One flag per cell of the box, and the box's cell count is a `u32`.
    pub open spec fn wf(self) -> bool {
        &&& self.on@.len() == self.width * self.height
        &&& self.width * self.height <= u32::MAX
    }

    /// Whether `(x, y)` is ink; anything outside the box is not.
    pub open spec fn ink(self, x: int, y: int) -> bool {
        0 <= x < self.width && 0 <= y < self.height && self.on@[y * self.width + x]
    }

    /// Some cell of the box is ink.
    pub open spec fn has_ink(self) -> bool {
        exists|x: int, y: int| #[trigger] self.ink(x, y)
    }

    /// `[x0, x1] × [y0, y1]` is the tightest box around the ink.
    pub open spec fn tight(self, x0: int, y0: int, x1: int, y1: int) -> bool {
        &&& forall|x: int, y: int| #[trigger] self.ink(x, y) ==> x0 <= x <= x1 && y0 <= y <= y1
        &&& exists|y: int| #[trigger] self.ink(x0, y)
        &&& exists|y: int| #[trigger] self.ink(x1, y)
        &&& exists|x: int| #[trigger] self.ink(x, y0)
        &&& exists|x: int| #[trigger] self.ink(x, y1)
    }

    /// A blank `width × height` cell (all off) that advances by its own width —
    /// the fallback for an unknown character.
    pub fn blank(width: u32, height: u32) -> (m: Self)
        requires
            width * height <= u32::MAX,
        ensures
            m.wf(),
            m.width == width,
            m.height == height,
            m.x_offset == 0,
            m.advance == width,
            forall|i: int| 0 <= i < m.on@.len() ==> !#[trigger] m.on@[i],
    {
        let n = (width as u64 * height as u64) as usize;
        let mut on: Vec<bool> = Vec::new();
        while on.len() < n
            invariant
                on@.len() <= n,
                n == width * height,
                forall|i: int| 0 <= i < on@.len() ==> !#[trigger] on@[i],
            decreases n - on@.len(),
        {
            on.push(false);
        }
        GlyphMask { width, height, on, x_offset: 0, advance: width }
    }

    /// Whether the pixel at (`x`, `y`) is ink. Out-of-bounds reads as off.
    pub fn get(&self, x: u32, y: u32) -> (b: bool)
        requires
            self.wf(),
        ensures
            b == self.ink(x as int, y as int),
    {
        if x >= self.width || y >= self.height {
            return false;
        }
        proof {
            crate::geometry::lemma_grid_index(self.width as int, self.height as int, x as int, y as int);
        }
        self.on[(y * self.width + x) as usize]
    }

    /// Bake this mask into a [`Sprite`] in `ink`, cropped to its ink bounds. A
    /// mask with no ink yields a 1×1 transparent sprite.
    pub fn to_sprite(&self, ink: Color) -> (s: Sprite)
        requires
            self.wf(),
        ensures
            s.wf(),
            !self.has_ink() ==> s.dims() == (Size { w: 1, h: 1 }) && s.cell(0, 0) == Color(0),
            self.has_ink() ==> (exists|x0: int, y0: int, x1: int, y1: int|
                {
                    &&& self.tight(x0, y0, x1, y1)
                    &&& s.dims().w == x1 - x0 + 1
                    &&& s.dims().h == y1 - y0 + 1
                    &&& forall|x: int, y: int|
                        s.dims().holds(x, y) ==> #[trigger] s.cell(x, y) == if self.ink(
                            x + x0,
                            y + y0,
                        ) {
                            ink
                        } else {
                            Color(0)
                        }
                }),
    {
        let mut x0: u32 = self.width;
        let mut y0: u32 = self.height;
        let mut x1: u32 = 0;
        let mut y1: u32 = 0;
        let mut any = false;
        let mut y: u32 = 0;
        while y < self.height
            invariant
                self.wf(),
                y <= self.height,
                any ==> x0 <= x1 < self.width && y0 <= y1 < self.height,
                !any ==> forall|px: int, py: int| 0 <= py < y ==> !#[trigger] self.ink(px, py),
                any ==> forall|px: int, py: int|
                    0 <= py < y && #[trigger] self.ink(px, py) ==> x0 <= px <= x1 && y0 <= py <= y1,
                any ==> (exists|py: int| #[trigger] self.ink(x0 as int, py)),
                any ==> (exists|py: int| #[trigger] self.ink(x1 as int, py)),
                any ==> (exists|px: int| #[trigger] self.ink(px, y0 as int)),
                any ==> (exists|px: int| #[trigger] self.ink(px, y1 as int)),
            decreases self.height - y,
        {
            let mut x: u32 = 0;
            while x < self.width
                invariant
                    self.wf(),
                    y < self.height,
                    x <= self.width,
                    any ==> x0 <= x1 < self.width && y0 <= y1 < self.height,
                    !any ==> forall|px: int, py: int|
                        (0 <= py < y || (py == y && 0 <= px < x)) ==> !#[trigger] self.ink(px, py),
                    any ==> forall|px: int, py: int|
                        (0 <= py < y || (py == y && 0 <= px < x)) && #[trigger] self.ink(px, py) ==> x0
                            <= px <= x1 && y0 <= py <= y1,
                    any ==> (exists|py: int| #[trigger] self.ink(x0 as int, py)),
                    any ==> (exists|py: int| #[trigger] self.ink(x1 as int, py)),
                    any ==> (exists|px: int| #[trigger] self.ink(px, y0 as int)),
                    any ==> (exists|px: int| #[trigger] self.ink(px, y1 as int)),
                decreases self.width - x,
            {
                if self.get(x, y) {
                    if !any {
                        x0 = x;
                        x1 = x;
                        y0 = y;
                        y1 = y;
                        any = true;
                    } else {
                        if x < x0 {
                            x0 = x;
                        }
                        if x > x1 {
                            x1 = x;
                        }
                        if y < y0 {
                            y0 = y;
                        }
                        if y > y1 {
                            y1 = y;
                        }
                    }
                    assert(self.ink(x as int, y as int));
                }
                x += 1;
            }
            y += 1;
        }
        if !any {
            let s = Sprite::new(Size::new(1, 1));
            return s;
        }
        proof {
            assert forall|px: int, py: int| #[trigger] self.ink(px, py) implies x0 <= px <= x1 && y0
                <= py <= y1 by {}
            assert(self.tight(x0 as int, y0 as int, x1 as int, y1 as int));
        }
        let w = x1 - x0 + 1;
        let h = y1 - y0 + 1;
        proof {
            assert(w * h <= self.width * self.height) by (nonlinear_arith)
                requires
                    w <= self.width,
                    h <= self.height,
            ;
        }
        let mut sprite = Sprite::new(Size::new(w, h));
        let mut sy: u32 = 0;
        while sy < h
            invariant
                self.wf(),
                self.tight(x0 as int, y0 as int, x1 as int, y1 as int),
                x0 <= x1 < self.width,
                y0 <= y1 < self.height,
                w == x1 - x0 + 1,
                h == y1 - y0 + 1,
                sprite.wf(),
                sprite.dims() == (Size { w, h }),
                sy <= h,
                forall|x: int, y: int|
                    sprite.dims().holds(x, y) ==> #[trigger] sprite.cell(x, y) == if y < sy && self.ink(
                        x + x0,
                        y + y0,
                    ) {
                        ink
                    } else {
                        Color(0)
                    },
            decreases h - sy,
        {
            let mut sx: u32 = 0;
            while sx < w
                invariant
                    self.wf(),
                    x0 <= x1 < self.width,
                    y0 <= y1 < self.height,
                    w == x1 - x0 + 1,
                    h == y1 - y0 + 1,
                    sprite.wf(),
                    sprite.dims() == (Size { w, h }),
                    sy < h,
                    sx <= w,
                    forall|x: int, y: int|
                        sprite.dims().holds(x, y) ==> #[trigger] sprite.cell(x, y) == if (y < sy || (y
                            == sy && x < sx)) && self.ink(x + x0, y + y0) {
                            ink
                        } else {
                            Color(0)
                        },
                decreases w - sx,
            {
                if self.get(x0 + sx, y0 + sy) {
                    sprite.put(sx, sy, ink);
                }
                sx += 1;
            }
            sy += 1;
        }
        sprite
    }
}

/// A provider of pixel-art glyph masks for [`BigText`](crate::text::BigText):
/// every mask it hands out is well formed.
pub trait GlyphSource {
    /// The cell height this source reports. A source that does not name it
    /// leaves it unknown to proofs, though still fixed.
    closed spec fn spec_cell_height(&self) -> u32 {
        arbitrary()
    }

    /// The mask this source draws for `ch`, by its view. A source that does
    /// not name it leaves it unknown to proofs, though still a function of `ch`.
    closed spec fn spec_glyph(&self, ch: char) -> (u32, u32, Seq<bool>, i32, u32) {
        arbitrary()
    }

    /// The common cell height, in source pixels.
    fn cell_height(&self) -> (h: u32)
        ensures
            h == self.spec_cell_height(),
    ;

    /// The 1-bit mask for `ch`. Unknown characters return a blank cell. The
    /// same source draws the same character the same way every time.
    fn glyph(&self, ch: char) -> (m: GlyphMask)
        ensures
            m.wf(),
            m@ == self.spec_glyph(ch),
    ;
}

/// Row `row` of character `code` in `font8x8::legacy::BASIC_LEGACY`: one bit
/// per column, bit 0 the leftmost.
pub uninterp spec fn legacy_row(code: int, row: int) -> u8;

/// Reads `font8x8::legacy::BASIC_LEGACY[code][row]`, the crate's fixed table of
/// 8×8 ASCII glyph rows. The contract names the entry; the table's contents are
/// the crate's.
#[verifier::external_body]
fn basic_legacy_row(code: usize, row: usize) -> (b: u8)
    requires
        code < 128,
        row < 8,
    ensures
        b == legacy_row(code as int, row as int),
{
    font8x8::legacy::BASIC_LEGACY[code][row]
}

/// Whether column `col` of `byte` is set (bit 0 the leftmost column).
pub open spec fn bit_set(byte: u8, col: int) -> bool {
    (byte >> (col as u8)) & 1u8 == 1u8
}

/// The 8×8 mask of `ch`: `font8x8`'s table for codes below 128, blank above.
pub open spec fn bitmap_ink(ch: char, row: int, col: int) -> bool {
    (ch as u32) < 128 && bit_set(legacy_row((ch as u32) as int, row), col)
}

/// The classic 8×8 source: `font8x8`'s ASCII table, one bit per pixel.
#[derive(Debug, Clone, Copy, Default)]
pub struct Bitmap8x8;

/// The ink flags of `ch`'s 8×8 cell, row-major.
pub open spec fn bitmap_flags(ch: char) -> Seq<bool> {
    Seq::new(64, |i: int| bitmap_ink(ch, i / 8, i % 8))
}

impl GlyphSource for Bitmap8x8 {
    open spec fn spec_cell_height(&self) -> u32 {
        8
    }

    open spec fn spec_glyph(&self, ch: char) -> (u32, u32, Seq<bool>, i32, u32) {
        (8, 8, bitmap_flags(ch), 0, 8)
    }

    fn cell_height(&self) -> (h: u32)
        ensures
            h == 8,
    {
        8
    }

    fn glyph(&self, ch: char) -> (m: GlyphMask)
        ensures
            m.width == 8,
            m.height == 8,
            m.x_offset == 0,
            m.advance == 8,
            forall|row: int, col: int|
                0 <= row < 8 && 0 <= col < 8 ==> #[trigger] m.ink(col, row) == bitmap_ink(ch, row, col),
    {
        let code = ch as u32;
        let mut on: Vec<bool> = Vec::new();
        let mut row: usize = 0;
        while row < 8
            invariant
                row <= 8,
                code == ch as u32,
                on@.len() == row * 8,
                forall|r: int, c: int|
                    0 <= r < row && 0 <= c < 8 ==> #[trigger] on@[r * 8 + c] == bitmap_ink(ch, r, c),
            decreases 8 - row,
        {
            let byte: u8 = if code < 128 {
                basic_legacy_row(code as usize, row)
            } else {
                0
            };
            let mut col: u8 = 0;
            while col < 8
                invariant
                    row < 8,
                    col <= 8,
                    code == ch as u32,
                        on@.len() == row * 8 + col,
                    code < 128 ==> byte == legacy_row(code as int, row as int),
                    code >= 128 ==> byte == 0,
                    forall|r: int, c: int|
                        0 <= r < row && 0 <= c < 8 ==> #[trigger] on@[r * 8 + c] == bitmap_ink(ch, r, c),
                    forall|c: int| 0 <= c < col ==> #[trigger] on@[row * 8 + c] == bitmap_ink(ch, row as int, c),
                decreases 8 - col,
            {
                let bit = (byte >> col) & 1 == 1;
                proof {
                    if code >= 128 {
                        assert((0u8 >> col) & 1u8 == 0u8) by (bit_vector);
                    }
                }
                proof {
                    assert(bit == bit_set(byte, col as int));
                }
                on.push(bit);
                col += 1;
            }
            row += 1;
        }
        proof {
            assert forall|i: int| 0 <= i < 64 implies on@[i] == bitmap_flags(ch)[i] by {
                let (r, c) = (i / 8, i % 8);
                assert(r * 8 + c == i);
                assert(on@[r * 8 + c] == bitmap_ink(ch, r, c));
            }
            assert(on@ =~= bitmap_flags(ch));
        }
        GlyphMask { width: 8, height: 8, on, x_offset: 0, advance: 8 }
    }
}

} // verus!
