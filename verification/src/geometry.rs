//! Integer geometry primitives shared across surfaces, sprites, and layers.
//!
//! Sizes are unsigned (a buffer cannot have negative extent); positions are
//! signed so a sprite can be placed partially off the top-left edge and clip.

use vstd::prelude::*;

verus! {

/// Width/height in pixels.
#[derive(Debug, Clone, Copy, PartialEq, Eq, Hash, Structural)]
pub struct Size {
    pub w: u32,
    pub h: u32,
}

impl Size {
    pub fn new(w: u32, h: u32) -> (s: Self)
        ensures
            s.w == w,
            s.h == h,
    {
        Self { w, h }
    }

    /// The number of pixels `w × h` as a mathematical integer.
    pub open spec fn spec_area(self) -> nat {
        (self.w * self.h) as nat
    }

    /// Whether `(x, y)` falls inside `0..w × 0..h`.
    pub open spec fn holds(self, x: int, y: int) -> bool {
        0 <= x < self.w && 0 <= y < self.h
    }

    /// `w × h` computed without overflow.
    pub fn area_u64(self) -> (a: u64)
        ensures
            a == self.w * self.h,
    {
        mul_u32(self.w, self.h)
    }

    /// Number of pixels — the length a backing buffer must have.
    pub fn area(self) -> (a: usize)
        requires
            self.w * self.h <= usize::MAX,
        ensures
            a == self.w * self.h,
    {
        self.w as usize * self.h as usize
    }

    /// Whether `p` falls inside `0..w × 0..h`.
    pub fn contains(self, p: Point) -> (b: bool)
        ensures
            b == self.holds(p.x as int, p.y as int),
    {
        p.x >= 0 && p.y >= 0 && (p.x as i64) < (self.w as i64) && (p.y as i64) < (self.h as i64)
    }
}

/// A signed pixel coordinate.
#[derive(Debug, Clone, Copy, PartialEq, Eq, Hash, Structural)]
pub struct Point {
    pub x: i32,
    pub y: i32,
}

impl Point {
    pub fn new(x: i32, y: i32) -> (p: Self)
        ensures
            p.x == x,
            p.y == y,
    {
        Self { x, y }
    }

    /// The origin `(0, 0)`.
    pub fn origin() -> (p: Self)
        ensures
            p.x == 0,
            p.y == 0,
    {
        Point { x: 0, y: 0 }
    }
}

/// An axis-aligned rectangle: top-left `origin` plus `size`.
#[derive(Debug, Clone, Copy, PartialEq, Eq, Structural)]
pub struct Rect {
    pub origin: Point,
    pub size: Size,
}

impl Rect {
    /// The exclusive right edge as a mathematical integer.
    pub open spec fn spec_right(self) -> int {
        self.origin.x + self.size.w
    }

    /// The exclusive bottom edge as a mathematical integer.
    pub open spec fn spec_bottom(self) -> int {
        self.origin.y + self.size.h
    }

    /// Whether `(x, y)` lies inside the half-open rectangle.
    pub open spec fn holds(self, x: int, y: int) -> bool {
        self.origin.x <= x < self.spec_right() && self.origin.y <= y < self.spec_bottom()
    }

    /// Whether both edges fit in `i32`.
    pub open spec fn edges_fit(self) -> bool {
        i32::MIN <= self.spec_right() <= i32::MAX && i32::MIN <= self.spec_bottom() <= i32::MAX
    }

    pub fn new(origin: Point, size: Size) -> (r: Self)
        ensures
            r.origin == origin,
            r.size == size,
    {
        Self { origin, size }
    }

    /// A rect at the origin with the given size.
    pub fn from_size(size: Size) -> (r: Self)
        ensures
            r.origin == (Point { x: 0, y: 0 }),
            r.size == size,
    {
        Self { origin: Point::origin(), size }
    }

    /// The exclusive right edge, `origin.x + w`.
    pub fn right(self) -> (r: i32)
        requires
            i32::MIN <= self.spec_right() <= i32::MAX,
        ensures
            r == self.spec_right(),
    {
        (self.origin.x as i64 + self.size.w as i64) as i32
    }

    /// The exclusive bottom edge, `origin.y + h`.
    pub fn bottom(self) -> (b: i32)
        requires
            i32::MIN <= self.spec_bottom() <= i32::MAX,
        ensures
            b == self.spec_bottom(),
    {
        (self.origin.y as i64 + self.size.h as i64) as i32
    }

    /// Whether `p` lies inside the rectangle.
    pub fn contains(self, p: Point) -> (b: bool)
        requires
            self.edges_fit(),
        ensures
            b == self.holds(p.x as int, p.y as int),
    {
        p.x >= self.origin.x && p.y >= self.origin.y && p.x < self.right() && p.y < self.bottom()
    }
}

} // verus!

verus! {

/// The full product of two `u32`s, which always fits a `u64`.
pub fn mul_u32(a: u32, b: u32) -> (r: u64)
    ensures
        r == a * b,
{
    assert(a as int * b as int <= 0xFFFF_FFFF * 0xFFFF_FFFF) by (nonlinear_arith)
        requires
            0 <= a <= 0xFFFF_FFFF,
            0 <= b <= 0xFFFF_FFFF,
    ;
    a as u64 * b as u64
}

/// Row-major indexing stays inside the buffer: `0 <= y*w + x < w*h`.
pub proof fn lemma_grid_index(w: int, h: int, x: int, y: int)
    requires
        0 <= x < w,
        0 <= y < h,
    ensures
        0 <= y * w + x < w * h,
        y * w + x + 1 <= w * h,
{
    assert(0 <= y * w) by (nonlinear_arith)
        requires
            0 <= y,
            0 <= w,
    ;
    assert(y * w + w <= w * h) by (nonlinear_arith)
        requires
            y + 1 <= h,
            0 <= w,
    ;
}

/// Row-major indexing is injective on the grid.
pub proof fn lemma_grid_index_injective(w: int, x1: int, y1: int, x2: int, y2: int)
    requires
        0 <= x1 < w,
        0 <= x2 < w,
        0 <= y1,
        0 <= y2,
        (x1, y1) != (x2, y2),
    ensures
        y1 * w + x1 != y2 * w + x2,
{
    if y1 < y2 {
        assert(y1 * w + w <= y2 * w) by (nonlinear_arith)
            requires
                y1 + 1 <= y2,
                0 <= w,
        ;
    } else if y2 < y1 {
        assert(y2 * w + w <= y1 * w) by (nonlinear_arith)
            requires
                y2 + 1 <= y1,
                0 <= w,
        ;
    }
}

/// Half of `a`, rounded toward zero (as `i32` division does).
pub open spec fn half_toward_zero(a: int) -> int {
    if a >= 0 {
        a / 2
    } else {
        -((-a) / 2)
    }
}

pub fn half_i64(a: i64) -> (h: i64)
    requires
        a > i64::MIN,
    ensures
        h == half_toward_zero(a as int),
{
    if a >= 0 {
        a / 2
    } else {
        -((-a) / 2)
    }
}

} // verus!
