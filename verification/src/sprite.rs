//! [`Sprite`] — the reusable unit of pixel art.
//!
//! A fixed-size grid of [`Color`] with 1-bit transparency. Glyphs, tiles,
//! characters, and the marquee banner are all just sprites; anything that draws
//! 8-bit art produces or consumes one, so there is a single blit path.

use crate::color::Color;
use crate::geometry::{lemma_grid_index, lemma_grid_index_injective, Point, Size};
use vstd::prelude::*;

verus! {

/// A rectangular grid of colours. Transparent cells are skipped when blitted.
#[derive(Debug, Clone)]
pub struct Sprite {
    size: Size,
    pixels: Vec<Color>,
}

/// Errors constructing a [`Sprite`].
#[derive(Debug, Clone, Copy, PartialEq, Eq, Structural)]
pub enum SpriteError {
    /// The pixel buffer length did not match the declared size.
    SizeMismatch { expected: usize, got: usize },
}

impl Sprite {
    /// The sprite's declared extent.
    pub closed spec fn dims(self) -> Size {
        self.size
    }

    /// The row-major pixel buffer.
    pub closed spec fn cells(self) -> Seq<Color> {
        self.pixels@
    }

    /// The buffer holds exactly one colour per grid cell.
    pub open spec fn wf(self) -> bool {
        self.cells().len() == self.dims().w * self.dims().h
    }

    /// The colour at `(x, y)`, or transparent outside the grid.
    pub open spec fn cell(self, x: int, y: int) -> Color {
        if self.dims().holds(x, y) {
            self.cells()[y * self.dims().w + x]
        } else {
            Color(0)
        }
    }

    /// A fully transparent sprite of the given size.
    pub fn new(size: Size) -> (s: Self)
        requires
            size.w * size.h <= usize::MAX,
        ensures
            s.wf(),
            s.dims() == size,
            forall|x: int, y: int| #[trigger] s.cell(x, y) == Color(0),
    {
        let n = size.area();
        let mut pixels: Vec<Color> = Vec::new();
        while pixels.len() < n
            invariant
                pixels.len() <= n,
                forall|i: int| 0 <= i < pixels.len() ==> pixels@[i] == Color(0),
            decreases n - pixels.len(),
        {
            pixels.push(Color(0));
        }
        let s = Self { size, pixels };
        proof {
            assert forall|x: int, y: int| #[trigger] s.cell(x, y) == Color(0) by {
                if size.holds(x, y) {
                    lemma_grid_index(size.w as int, size.h as int, x, y);
                }
            }
        }
        s
    }

    /// Build from a row-major pixel buffer.
    ///
    /// Fails with [`SpriteError::SizeMismatch`] exactly when
    /// `pixels.len() != w × h`.
    pub fn from_pixels(size: Size, pixels: Vec<Color>) -> (r: Result<Self, SpriteError>)
        ensures
            pixels.len() == size.w * size.h ==> (r matches Ok(s) && s.wf() && s.dims() == size
                && s.cells() == pixels@),
            pixels.len() != size.w * size.h ==> r == Err::<Self, SpriteError>(
                SpriteError::SizeMismatch {
                    expected: (size.w * size.h) as usize,
                    got: pixels.len(),
                },
            ),
    {
        let area = size.area_u64();
        if pixels.len() as u64 == area {
            Ok(Self { size, pixels })
        } else {
            Err(
                SpriteError::SizeMismatch {
                    expected: area as usize,
                    got: pixels.len(),
                },
            )
        }
    }

    pub fn size(&self) -> (s: Size)
        ensures
            s == self.dims(),
    {
        self.size
    }

    /// The colour at `p`, or transparent outside the grid.
    pub fn get(&self, p: Point) -> (c: Color)
        requires
            self.wf(),
        ensures
            c == self.cell(p.x as int, p.y as int),
    {
        if self.size.contains(p) {
            self.read(p.x as u32, p.y as u32)
        } else {
            Color(0)
        }
    }

    /// The colour at an in-grid cell addressed by unsigned coordinates.
    pub fn read(&self, x: u32, y: u32) -> (c: Color)
        requires
            self.wf(),
            x < self.dims().w,
            y < self.dims().h,
        ensures
            c == self.cell(x as int, y as int),
    {
        proof {
            lemma_grid_index(self.size.w as int, self.size.h as int, x as int, y as int);
            assert(self.pixels@.len() == self.size.w as int * self.size.h as int);
        }
        let n = self.pixels.len();
        let i = y as usize * self.size.w as usize + x as usize;
        self.pixels[i]
    }

    /// Set the colour at `p`; a no-op outside the grid.
    /// Write `color` at the in-bounds cell `(x, y)`.
    pub(crate) fn put(&mut self, x: u32, y: u32, color: Color)
        requires
            old(self).wf(),
            x < old(self).dims().w,
            y < old(self).dims().h,
        ensures
            final(self).wf(),
            final(self).dims() == old(self).dims(),
            forall|x2: int, y2: int| #[trigger]
                final(self).cell(x2, y2) == if x2 == x && y2 == y {
                    color
                } else {
                    old(self).cell(x2, y2)
                },
    {
        let w = self.size.w;
        proof {
            lemma_grid_index(w as int, self.size.h as int, x as int, y as int);
            assert(self.pixels@.len() == w as int * self.size.h as int);
        }
        let n = self.pixels.len();
        let i = y as usize * w as usize + x as usize;
        let ghost before = *self;
        self.pixels.set(i, color);
        proof {
            assert forall|x2: int, y2: int| #[trigger]
                self.cell(x2, y2) == if x2 == x && y2 == y {
                    color
                } else {
                    before.cell(x2, y2)
                } by {
                if self.dims().holds(x2, y2) && (x2, y2) != (x as int, y as int) {
                    lemma_grid_index(w as int, self.size.h as int, x2, y2);
                    lemma_grid_index_injective(w as int, x2, y2, x as int, y as int);
                }
            }
        }
    }

    pub fn set(&mut self, p: Point, color: Color)
        requires
            old(self).wf(),
        ensures
            final(self).wf(),
            final(self).dims() == old(self).dims(),
            forall|x: int, y: int| #[trigger]
                final(self).cell(x, y) == if x == p.x && y == p.y && old(self).dims().holds(x, y) {
                    color
                } else {
                    old(self).cell(x, y)
                },
    {
        if self.size.contains(p) {
            let x = p.x as u32;
            let y = p.y as u32;
            let w = self.size.w;
            proof {
                lemma_grid_index(w as int, self.size.h as int, x as int, y as int);
                assert(self.pixels@.len() == w as int * self.size.h as int);
            }
            let n = self.pixels.len();
            let i = y as usize * w as usize + x as usize;
            let ghost before = *self;
            self.pixels.set(i, color);
            proof {
                assert forall|x2: int, y2: int| #[trigger]
                    self.cell(x2, y2) == if x2 == p.x && y2 == p.y && before.dims().holds(x2, y2) {
                        color
                    } else {
                        before.cell(x2, y2)
                    } by {
                    if self.dims().holds(x2, y2) && (x2, y2) != (x as int, y as int) {
                        lemma_grid_index(w as int, self.size.h as int, x2, y2);
                        lemma_grid_index_injective(w as int, x2, y2, x as int, y as int);
                    }
                }
            }
        }
    }
}

} // verus!
