//! Tile maps: the reusable world layer beneath sprites and actors.
//!
//! A [`TileSet`] slices one sheet [`Sprite`] into a uniform grid of numbered
//! tiles (plus optional game-opaque per-tile flags). A [`TileLayer`] is a
//! row-major field of `Option<TileId>` cells over one tileset. A [`TileMap`]
//! stacks layers over a shared cell grid. [`TileGrid`] is the pure layout: it
//! turns a `(col, row)` tile coordinate into the virtual-pixel [`Rect`] it
//! occupies. [`TileMapView`] ties them together as a [`PixelLayer`].
//! [`TileCursor`] and [`TileMarker`] are actor support: a cell position stepped
//! one cell at a time, and the layer that fills it.

use vstd::prelude::*;

use crate::color::Color;
use crate::geometry::{half_i64, half_toward_zero, mul_u32, Point, Rect, Size};
use crate::present::PixelLayer;
use crate::scene::Direction;
use crate::sprite::Sprite;
use crate::surface::{ex_word, rect_word, BlitOptions, QuarterTurns, Surface};

verus! {

/// A tile's index within its [`TileSet`], local to that tileset.
#[derive(Debug, Clone, Copy, PartialEq, Eq, Hash, Structural)]
pub struct TileId(u32);

impl TileId {
    pub closed spec fn raw(self) -> u32 {
        self.0
    }

    pub fn new(raw: u32) -> (id: Self)
        ensures
            id.raw() == raw,
    {
        TileId(raw)
    }

    /// The underlying index.
    pub fn get(self) -> (raw: u32)
        ensures
            raw == self.raw(),
    {
        self.0
    }
}

/// Selects one [`TileSet`] within a [`TileSets`] collection.
#[derive(Debug, Clone, Copy, PartialEq, Eq, Hash, Structural)]
pub struct TileSetId(u32);

impl TileSetId {
    pub closed spec fn raw(self) -> u32 {
        self.0
    }

    pub fn new(raw: u32) -> (id: Self)
        ensures
            id.raw() == raw,
    {
        TileSetId(raw)
    }

    /// The underlying index.
    pub fn get(self) -> (raw: u32)
        ensures
            raw == self.raw(),
    {
        self.0
    }
}

/// One sheet [`Sprite`] sliced into a uniform grid of tiles, laid out
/// left-to-right then top-to-bottom over `columns` columns, each with an
/// optional game-opaque flag byte.
#[derive(Debug, Clone)]
pub struct TileSet {
    sheet: Sprite,
    tile_size: Size,
    columns: u32,
    flags: Vec<u8>,
}

impl TileSet {
    pub closed spec fn spec_sheet(self) -> Sprite {
        self.sheet
    }

    pub closed spec fn spec_tile_size(self) -> Size {
        self.tile_size
    }

    pub closed spec fn spec_columns(self) -> u32 {
        self.columns
    }

    pub closed spec fn spec_flags(self) -> Seq<u8> {
        self.flags@
    }

    /// The sheet is a well-formed sprite.
    pub open spec fn wf(self) -> bool {
        self.spec_sheet().wf()
    }

    /// A zero tile dimension or zero columns: every lookup misses.
    pub open spec fn degenerate(self) -> bool {
        self.spec_tile_size().w == 0 || self.spec_tile_size().h == 0 || self.spec_columns() == 0
    }

    /// How many whole tiles the sheet holds at this grid.
    pub open spec fn spec_len(self) -> int {
        if self.degenerate() {
            0
        } else {
            self.spec_whole_columns() * (self.spec_sheet().dims().h / self.spec_tile_size().h)
        }
    }

    /// The columns whose tiles lie wholly inside the sheet: the grid's columns,
    /// capped at as many tile widths as the sheet is wide.
    pub open spec fn spec_whole_columns(self) -> int {
        let fit = self.spec_sheet().dims().w / self.spec_tile_size().w;
        if self.spec_columns() < fit {
            self.spec_columns() as int
        } else {
            fit as int
        }
    }

    /// The sheet rectangle of tile `id`, when it lies wholly inside the sheet.
    pub open spec fn spec_region(self, id: TileId) -> Option<Rect> {
        if self.degenerate() {
            None
        } else {
            let col = id.raw() % self.spec_columns();
            let row = id.raw() / self.spec_columns();
            let x = col * self.spec_tile_size().w;
            let y = row * self.spec_tile_size().h;
            if x + self.spec_tile_size().w <= self.spec_sheet().dims().w && y
                + self.spec_tile_size().h <= self.spec_sheet().dims().h {
                Some(
                    Rect {
                        origin: Point { x: x as i32, y: y as i32 },
                        size: self.spec_tile_size(),
                    },
                )
            } else {
                None
            }
        }
    }

    /// Tile `id`'s flag byte (`0` when it has none).
    pub open spec fn spec_flag(self, id: TileId) -> u8 {
        if id.raw() < self.spec_flags().len() {
            self.spec_flags()[id.raw() as int]
        } else {
            0
        }
    }

    /// Slice `sheet` into `tile_size` tiles over `columns` columns. A zero
    /// `tile_size` or `columns` yields an empty tileset.
    pub fn grid(sheet: Sprite, tile_size: Size, columns: u32) -> (t: Self)
        requires
            sheet.wf(),
        ensures
            t.wf(),
            t.spec_sheet() == sheet,
            t.spec_tile_size() == tile_size,
            t.spec_columns() == columns,
            t.spec_flags() == Seq::<u8>::empty(),
    {
        TileSet { sheet, tile_size, columns, flags: Vec::new() }
    }

    /// Attach per-tile flag bytes (indexed by [`TileId`]); ids past the end
    /// read back `0`.
    pub fn with_flags(self, flags: Vec<u8>) -> (t: Self)
        ensures
            self.wf() ==> t.wf(),
            t.spec_sheet() == self.spec_sheet(),
            t.spec_tile_size() == self.spec_tile_size(),
            t.spec_columns() == self.spec_columns(),
            t.spec_flags() == flags@,
    {
        TileSet { flags, ..self }
    }

    /// The uniform source tile size.
    pub fn tile_size(&self) -> (s: Size)
        ensures
            s == self.spec_tile_size(),
    {
        self.tile_size
    }

    /// The backing sheet, for the blit.
    pub fn sheet(&self) -> (s: &Sprite)
        ensures
            *s == self.spec_sheet(),
    {
        &self.sheet
    }

    /// How many whole tiles the sheet holds at this grid.
    pub fn len(&self) -> (n: usize)
        requires
            self.spec_len() <= u32::MAX,
        ensures
            n == self.spec_len(),
    {
        if self.tile_size.w == 0 || self.tile_size.h == 0 || self.columns == 0 {
            return 0;
        }
        let rows = self.sheet.size().h / self.tile_size.h;
        let fit = self.sheet.size().w / self.tile_size.w;
        let cols = if self.columns < fit {
            self.columns
        } else {
            fit
        };
        (cols * rows) as usize
    }

    /// Whether the sheet holds no whole tile.
    pub fn is_empty(&self) -> (b: bool)
        requires
            self.spec_len() <= u32::MAX,
        ensures
            b == (self.spec_len() == 0),
    {
        self.len() == 0
    }

    /// The sub-rectangle of the sheet holding tile `id`, or `None` when the
    /// tile is out of range or its region would fall outside the sheet.
    pub fn region(&self, id: TileId) -> (r: Option<Rect>)
        ensures
            r == self.spec_region(id),
    {
        if self.tile_size.w == 0 || self.tile_size.h == 0 || self.columns == 0 {
            return None;
        }
        let index = id.get();
        let col = index % self.columns;
        let row = index / self.columns;
        let x = mul_u32(col, self.tile_size.w);
        let y = mul_u32(row, self.tile_size.h);
        let sheet = self.sheet.size();
        if (x as u128) + (self.tile_size.w as u128) <= sheet.w as u128 && (y as u128) + (
        self.tile_size.h as u128) <= sheet.h as u128 {
            let xi = (x as u32) as i32;
            let yi = (y as u32) as i32;
            Some(Rect::new(Point::new(xi, yi), self.tile_size))
        } else {
            None
        }
    }

    /// Tile `id`'s flag byte (`0` when it has none).
    pub fn flags(&self, id: TileId) -> (f: u8)
        ensures
            f == self.spec_flag(id),
    {
        let i = id.get() as usize;
        if i < self.flags.len() {
            self.flags[i]
        } else {
            0
        }
    }
}

/// The game-supplied collection a [`TileMapView`] resolves [`TileSetId`]s
/// against — one tileset per id, in order.
#[derive(Debug, Clone)]
pub struct TileSets {
    sets: Vec<TileSet>,
}

impl TileSets {
    pub closed spec fn spec_sets(self) -> Seq<TileSet> {
        self.sets@
    }

    /// Every tileset is well formed.
    pub open spec fn wf(self) -> bool {
        forall|i: int| 0 <= i < self.spec_sets().len() ==> (#[trigger] self.spec_sets()[i]).wf()
    }

    pub fn new(sets: Vec<TileSet>) -> (t: Self)
        ensures
            (forall|i: int| 0 <= i < sets@.len() ==> (#[trigger] sets@[i]).wf()) ==> t.wf(),
            t.spec_sets() == sets@,
    {
        TileSets { sets }
    }

    /// The tileset for `id`, or `None` when the id is out of range.
    pub fn get(&self, id: TileSetId) -> (r: Option<&TileSet>)
        ensures
            match r {
                Some(t) => id.raw() < self.spec_sets().len() && *t == self.spec_sets()[id.raw() as int],
                None => id.raw() >= self.spec_sets().len(),
            },
    {
        let i = id.get() as usize;
        if i < self.sets.len() {
            Some(&self.sets[i])
        } else {
            None
        }
    }

    pub fn len(&self) -> (n: usize)
        ensures
            n == self.spec_sets().len(),
    {
        self.sets.len()
    }

    pub fn is_empty(&self) -> (b: bool)
        ensures
            b == (self.spec_sets().len() == 0),
    {
        self.sets.len() == 0
    }
}

impl Default for TileSets {
    fn default() -> (t: Self)
        ensures
            t.spec_sets() == Seq::<TileSet>::empty(),
    {
        TileSets { sets: Vec::new() }
    }
}

/// One row-major field of tile cells over a single tileset. `None` is an empty
/// cell; `Some(id)` paints tile `id` of `tileset`.
#[derive(Debug, Clone, PartialEq, Eq)]
pub struct TileLayer {
    /// Which tileset (in the render-time [`TileSets`]) this layer's ids index.
    pub tileset: TileSetId,
    /// Row-major cells; `None` is empty.
    pub cells: Vec<Option<TileId>>,
}

impl TileLayer {
    pub fn new(tileset: TileSetId, cells: Vec<Option<TileId>>) -> (l: Self)
        ensures
            l.tileset == tileset,
            l.cells@ == cells@,
    {
        TileLayer { tileset, cells }
    }
}

/// Why a [`TileMap`] is malformed.
#[derive(Debug, Clone, Copy, PartialEq, Eq, Structural)]
pub enum TileMapError {
    /// The cell grid has a zero dimension.
    ZeroSize,
    /// A layer's cell count does not match the `expected` grid area.
    CellCountMismatch { layer: usize, expected: usize, got: usize },
}

/// The first of the first `n` layers whose cell count is not `area`.
pub open spec fn first_mismatch(layers: Seq<TileLayer>, area: int, n: int) -> Option<int>
    decreases n,
{
    if n <= 0 {
        None
    } else {
        match first_mismatch(layers, area, n - 1) {
            Some(k) => Some(k),
            None => if layers[n - 1].cells@.len() != area {
                Some(n - 1)
            } else {
                None
            },
        }
    }
}

/// Once a prefix has a first mismatch, every longer prefix has the same one.
pub proof fn lemma_first_mismatch_stable(layers: Seq<TileLayer>, area: int, n: int, m: int)
    requires
        n <= m,
        first_mismatch(layers, area, n) is Some,
    ensures
        first_mismatch(layers, area, m) == first_mismatch(layers, area, n),
    decreases m - n,
{
    if n < m {
        lemma_first_mismatch_stable(layers, area, n, m - 1);
    }
}

/// What validating `size` and `layers` yields: the zero-size error, the first
/// layer whose cell count is off, or success.
pub open spec fn spec_validate(size: Size, layers: Seq<TileLayer>) -> Result<(), TileMapError> {
    if size.w == 0 || size.h == 0 {
        Err(TileMapError::ZeroSize)
    } else {
        match first_mismatch(layers, size.w * size.h, layers.len() as int) {
            Some(k) => Err(
                TileMapError::CellCountMismatch {
                    layer: k as usize,
                    expected: (size.w * size.h) as usize,
                    got: layers[k].cells@.len() as usize,
                },
            ),
            None => Ok(()),
        }
    }
}

/// A stack of [`TileLayer`]s over a shared `size` (columns × rows) cell grid,
/// drawn bottom layer first.
#[derive(Debug, Clone, PartialEq, Eq)]
pub struct TileMap {
    size: Size,
    layers: Vec<TileLayer>,
}

impl TileMap {
    pub closed spec fn spec_size(self) -> Size {
        self.size
    }

    pub closed spec fn spec_layers(self) -> Seq<TileLayer> {
        self.layers@
    }

    /// A validated map: non-zero `size`, and every layer holding exactly
    /// `size.area()` cells.
    pub fn new(size: Size, layers: Vec<TileLayer>) -> (r: Result<Self, TileMapError>)
        requires
            size.w * size.h <= usize::MAX,
        ensures
            match r {
                Ok(m) => spec_validate(size, layers@) is Ok && m.spec_size() == size
                    && m.spec_layers() == layers@,
                Err(e) => spec_validate(size, layers@) == Err::<(), TileMapError>(e),
            },
    {
        let map = TileMap { size, layers };
        match map.validate() {
            Ok(()) => Ok(map),
            Err(e) => Err(e),
        }
    }

    /// Re-check the invariants of a (possibly deserialised) map: the first
    /// failure, a zero dimension before any layer.
    pub fn validate(&self) -> (r: Result<(), TileMapError>)
        requires
            self.spec_size().w * self.spec_size().h <= usize::MAX,
        ensures
            r == spec_validate(self.spec_size(), self.spec_layers()),
    {
        if self.size.w == 0 || self.size.h == 0 {
            return Err(TileMapError::ZeroSize);
        }
        let expected = self.size.area();
        let mut i: usize = 0;
        while i < self.layers.len()
            invariant
                self.size.w > 0 && self.size.h > 0,
                expected == self.size.w * self.size.h,
                i <= self.layers@.len(),
                first_mismatch(self.layers@, expected as int, i as int) is None,
            decreases self.layers@.len() - i,
        {
            let got = self.layers[i].cells.len();
            if got != expected {
                proof {
                    assert(first_mismatch(self.layers@, expected as int, i + 1) == Some(i as int));
                    lemma_first_mismatch_stable(
                        self.layers@,
                        expected as int,
                        i + 1,
                        self.layers@.len() as int,
                    );
                    assert(got == self.layers@[i as int].cells@.len());
                    assert(((self.size.w * self.size.h) as usize) == expected);
                }
                return Err(TileMapError::CellCountMismatch { layer: i, expected, got });
            }
            i += 1;
        }
        Ok(())
    }

    pub fn size(&self) -> (s: Size)
        ensures
            s == self.spec_size(),
    {
        self.size
    }

    pub fn layers(&self) -> (ls: &[TileLayer])
        ensures
            ls@ == self.spec_layers(),
    {
        self.layers.as_slice()
    }
}

/// The pure tile↔pixel layout: an `origin` in virtual pixels, a `tile_size`,
/// and the grid extent in tiles.
#[derive(Debug, Clone, Copy, PartialEq, Eq, Structural)]
pub struct TileGrid {
    origin: Point,
    tile_size: Size,
    size: Size,
}

impl TileGrid {
    pub closed spec fn spec_origin(self) -> Point {
        self.origin
    }

    pub closed spec fn spec_tile_size(self) -> Size {
        self.tile_size
    }

    pub closed spec fn spec_size(self) -> Size {
        self.size
    }

    /// The top-left pixel of cell `(col, row)`, in exact arithmetic.
    pub open spec fn cell_origin(self, col: int, row: int) -> (int, int) {
        (
            self.spec_origin().x + col * self.spec_tile_size().w,
            self.spec_origin().y + row * self.spec_tile_size().h,
        )
    }

    /// Cell `(col, row)`'s pixel offsets and origin are `i32` values.
    pub open spec fn cell_fits(self, col: int, row: int) -> bool {
        &&& col * self.spec_tile_size().w <= i32::MAX
        &&& row * self.spec_tile_size().h <= i32::MAX
        &&& i32::MIN <= self.cell_origin(col, row).0 <= i32::MAX
        &&& i32::MIN <= self.cell_origin(col, row).1 <= i32::MAX
    }

    /// The rect of cell `(col, row)`.
    pub open spec fn cell_rect(self, col: int, row: int) -> Rect {
        Rect {
            origin: Point {
                x: self.cell_origin(col, row).0 as i32,
                y: self.cell_origin(col, row).1 as i32,
            },
            size: self.spec_tile_size(),
        }
    }

    /// A grid pinned at `origin`, `tile_size` per tile, `size` tiles across and
    /// down.
    pub fn new(origin: Point, tile_size: Size, size: Size) -> (g: Self)
        ensures
            g.spec_origin() == origin,
            g.spec_tile_size() == tile_size,
            g.spec_size() == size,
    {
        TileGrid { origin, tile_size, size }
    }

    /// A grid of `size` tiles centred within `area` (integer offsets rounded
    /// toward zero, so a grid larger than `area` overhangs symmetrically).
    pub fn centered_in(area: Rect, tile_size: Size, size: Size) -> (g: Self)
        requires
            size.w * tile_size.w <= i32::MAX,
            size.h * tile_size.h <= i32::MAX,
            area.size.w <= i32::MAX,
            area.size.h <= i32::MAX,
            i32::MIN <= area.origin.x + half_toward_zero(area.size.w - size.w * tile_size.w)
                <= i32::MAX,
            i32::MIN <= area.origin.y + half_toward_zero(area.size.h - size.h * tile_size.h)
                <= i32::MAX,
        ensures
            g.spec_origin().x == area.origin.x + half_toward_zero(
                area.size.w - size.w * tile_size.w,
            ),
            g.spec_origin().y == area.origin.y + half_toward_zero(
                area.size.h - size.h * tile_size.h,
            ),
            g.spec_tile_size() == tile_size,
            g.spec_size() == size,
    {
        let pw = mul_u32(size.w, tile_size.w);
        let ph = mul_u32(size.h, tile_size.h);
        let dx = half_i64(area.size.w as i64 - pw as i64);
        let dy = half_i64(area.size.h as i64 - ph as i64);
        let x = area.origin.x as i64 + dx;
        let y = area.origin.y as i64 + dy;
        TileGrid { origin: Point::new(x as i32, y as i32), tile_size, size }
    }

    pub fn origin(&self) -> (p: Point)
        ensures
            p == self.spec_origin(),
    {
        self.origin
    }

    pub fn tile_size(&self) -> (s: Size)
        ensures
            s == self.spec_tile_size(),
    {
        self.tile_size
    }

    pub fn size(&self) -> (s: Size)
        ensures
            s == self.spec_size(),
    {
        self.size
    }

    /// The grid's total extent in virtual pixels (`size` × `tile_size`).
    pub fn pixel_size(&self) -> (s: Size)
        requires
            self.spec_size().w * self.spec_tile_size().w <= u32::MAX,
            self.spec_size().h * self.spec_tile_size().h <= u32::MAX,
        ensures
            s.w == self.spec_size().w * self.spec_tile_size().w,
            s.h == self.spec_size().h * self.spec_tile_size().h,
    {
        Size::new(self.size.w * self.tile_size.w, self.size.h * self.tile_size.h)
    }

    /// The virtual-pixel rect of the tile at `(col, row)`. Not bounds-checked
    /// against `size` — an out-of-range tile simply lands past the grid.
    pub fn tile_rect(&self, col: u32, row: u32) -> (r: Rect)
        requires
            self.cell_fits(col as int, row as int),
        ensures
            r == self.cell_rect(col as int, row as int),
    {
        let dx = mul_u32(col, self.tile_size.w);
        let dy = mul_u32(row, self.tile_size.h);
        let x = self.origin.x as i64 + dx as i64;
        let y = self.origin.y as i64 + dy as i64;
        Rect::new(Point::new(x as i32, y as i32), self.tile_size)
    }

    /// The rect of `(col, row)` when it fits, else `None`.
    fn fitted_rect(&self, col: u32, row: u32) -> (r: Option<Rect>)
        ensures
            r == (if self.cell_fits(col as int, row as int) {
                Some(self.cell_rect(col as int, row as int))
            } else {
                None::<Rect>
            }),
    {
        let dx = mul_u32(col, self.tile_size.w);
        let dy = mul_u32(row, self.tile_size.h);
        if dx > 0x7fff_ffff || dy > 0x7fff_ffff {
            return None;
        }
        let x = self.origin.x as i64 + dx as i64;
        let y = self.origin.y as i64 + dy as i64;
        if x < -0x8000_0000 || x > 0x7fff_ffff || y < -0x8000_0000 || y > 0x7fff_ffff {
            return None;
        }
        Some(Rect::new(Point::new(x as i32, y as i32), self.tile_size))
    }

    /// Where a sprite of `sprite_size` sits centred within the `(col, row)`
    /// tile (signed, rounded toward zero, so a larger sprite overhangs).
    pub fn centered_in_tile(&self, col: u32, row: u32, sprite_size: Size) -> (p: Point)
        requires
            self.cell_fits(col as int, row as int),
            self.spec_tile_size().w <= i32::MAX,
            self.spec_tile_size().h <= i32::MAX,
            sprite_size.w <= i32::MAX,
            sprite_size.h <= i32::MAX,
            i32::MIN <= self.cell_origin(col as int, row as int).0 + half_toward_zero(
                self.spec_tile_size().w - sprite_size.w,
            ) <= i32::MAX,
            i32::MIN <= self.cell_origin(col as int, row as int).1 + half_toward_zero(
                self.spec_tile_size().h - sprite_size.h,
            ) <= i32::MAX,
        ensures
            p.x == self.cell_origin(col as int, row as int).0 + half_toward_zero(
                self.spec_tile_size().w - sprite_size.w,
            ),
            p.y == self.cell_origin(col as int, row as int).1 + half_toward_zero(
                self.spec_tile_size().h - sprite_size.h,
            ),
    {
        let rect = self.tile_rect(col, row);
        let dx = half_i64(self.tile_size.w as i64 - sprite_size.w as i64);
        let dy = half_i64(self.tile_size.h as i64 - sprite_size.h as i64);
        let x = rect.origin.x as i64 + dx;
        let y = rect.origin.y as i64 + dy;
        Point::new(x as i32, y as i32)
    }
}

/// How a [`TileCursor`] step resolved: into the next cell, or held at the
/// grid's edge.
#[derive(Debug, Clone, Copy, PartialEq, Eq, Structural)]
pub enum CursorStep {
    /// The cursor moved one cell in the stepped direction.
    Moved,
    /// The step would have left the grid; the cursor stayed put.
    AtEdge,
}

/// Where a step in `dir` from `(col, row)` leads on a `w` × `h` grid: the new
/// cell, or `None` when it would leave the grid.
pub open spec fn spec_step(col: int, row: int, w: int, h: int, dir: Direction) -> Option<(int, int)> {
    let c = col + dir.step().0;
    let r = row + dir.step().1;
    if 0 <= c < w && 0 <= r < h {
        Some((c, r))
    } else {
        None
    }
}

/// A cell position on a [`TileGrid`], stepped one cell at a time. Pure grid
/// arithmetic: no rendering and no world rules.
#[derive(Debug, Clone, Copy, PartialEq, Eq, Structural)]
pub struct TileCursor {
    grid: TileGrid,
    col: u32,
    row: u32,
}

impl TileCursor {
    pub closed spec fn spec_grid(self) -> TileGrid {
        self.grid
    }

    pub closed spec fn spec_col(self) -> u32 {
        self.col
    }

    pub closed spec fn spec_row(self) -> u32 {
        self.row
    }

    /// A cursor at `(col, row)`, clamped into `grid`'s extent.
    pub fn new(grid: TileGrid, col: u32, row: u32) -> (c: Self)
        ensures
            c.spec_grid() == grid,
            c.spec_col() == (if grid.spec_size().w == 0 {
                0
            } else if col < grid.spec_size().w {
                col as int
            } else {
                grid.spec_size().w - 1
            }),
            c.spec_row() == (if grid.spec_size().h == 0 {
                0
            } else if row < grid.spec_size().h {
                row as int
            } else {
                grid.spec_size().h - 1
            }),
    {
        let size = grid.size();
        let max_col: u32 = if size.w == 0 {
            0
        } else {
            size.w - 1
        };
        let max_row: u32 = if size.h == 0 {
            0
        } else {
            size.h - 1
        };
        TileCursor {
            grid,
            col: if col < max_col {
                col
            } else {
                max_col
            },
            row: if row < max_row {
                row
            } else {
                max_row
            },
        }
    }

    pub fn col(&self) -> (c: u32)
        ensures
            c == self.spec_col(),
    {
        self.col
    }

    pub fn row(&self) -> (r: u32)
        ensures
            r == self.spec_row(),
    {
        self.row
    }

    /// The grid this cursor addresses.
    pub fn grid(&self) -> (g: TileGrid)
        ensures
            g == self.spec_grid(),
    {
        self.grid
    }

    /// The virtual-pixel rect of the current cell.
    pub fn rect(&self) -> (r: Rect)
        requires
            self.spec_grid().cell_fits(self.spec_col() as int, self.spec_row() as int),
        ensures
            r == self.spec_grid().cell_rect(self.spec_col() as int, self.spec_row() as int),
    {
        self.grid.tile_rect(self.col, self.row)
    }

    /// Step one cell in `dir`, holding in place at the grid's edge.
    pub fn step(&mut self, dir: Direction) -> (s: CursorStep)
        ensures
            final(self).spec_grid() == old(self).spec_grid(),
            match spec_step(
                old(self).spec_col() as int,
                old(self).spec_row() as int,
                old(self).spec_grid().spec_size().w as int,
                old(self).spec_grid().spec_size().h as int,
                dir,
            ) {
                Some((c, r)) => s == CursorStep::Moved && final(self).spec_col() == c
                    && final(self).spec_row() == r,
                None => s == CursorStep::AtEdge && final(self).spec_col() == old(self).spec_col()
                    && final(self).spec_row() == old(self).spec_row(),
            },
    {
        let delta = dir.delta();
        let size = self.grid.size();
        let col = self.col as i64 + delta.x as i64;
        let row = self.row as i64 + delta.y as i64;
        if 0 <= col && col < size.w as i64 && 0 <= row && row < size.h as i64 {
            self.col = col as u32;
            self.row = row as u32;
            CursorStep::Moved
        } else {
            CursorStep::AtEdge
        }
    }

    /// Land back on the grid after crossing off its edge travelling `dir`: the
    /// opposite edge, same lane (`y` grows downward, so going North enters
    /// from the bottom).
    pub fn reenter(&mut self, dir: Direction)
        ensures
            final(self).spec_grid() == old(self).spec_grid(),
            ({
                let w = old(self).spec_grid().spec_size().w;
                let h = old(self).spec_grid().spec_size().h;
                match dir {
                    Direction::East => final(self).spec_col() == 0 && final(self).spec_row()
                        == old(self).spec_row(),
                    Direction::West => final(self).spec_col() == (if w == 0 {
                        0
                    } else {
                        w - 1
                    }) && final(self).spec_row() == old(self).spec_row(),
                    Direction::South => final(self).spec_row() == 0 && final(self).spec_col()
                        == old(self).spec_col(),
                    Direction::North => final(self).spec_row() == (if h == 0 {
                        0
                    } else {
                        h - 1
                    }) && final(self).spec_col() == old(self).spec_col(),
                }
            }),
    {
        let size = self.grid.size();
        match dir {
            Direction::East => self.col = 0,
            Direction::West => self.col = if size.w == 0 {
                0
            } else {
                size.w - 1
            },
            Direction::South => self.row = 0,
            Direction::North => self.row = if size.h == 0 {
                0
            } else {
                size.h - 1
            },
        }
    }
}

/// A step that moved can be undone: stepping back the opposite way returns to
/// the starting cell.
pub proof fn law_step_back_returns(col: int, row: int, w: int, h: int, dir: Direction)
    requires
        0 <= col < w,
        0 <= row < h,
        spec_step(col, row, w, h, dir) is Some,
    ensures
        ({
            let cell = spec_step(col, row, w, h, dir).unwrap();
            spec_step(cell.0, cell.1, w, h, dir.reverse()) == Some((col, row))
        }),
{
}

/// A cursor on the grid stays on it: a step either moves to a cell of the grid
/// or holds.
pub proof fn law_step_stays_on_the_grid(col: int, row: int, w: int, h: int, dir: Direction)
    ensures
        match spec_step(col, row, w, h, dir) {
            Some((c, r)) => 0 <= c < w && 0 <= r < h,
            None => true,
        },
{
}

/// A solid single-cell marker: a [`PixelLayer`] filling its [`TileCursor`]'s
/// current cell with one colour.
#[derive(Debug, Clone, Copy)]
pub struct TileMarker {
    cursor: TileCursor,
    color: Color,
}

impl TileMarker {
    pub closed spec fn spec_cursor(self) -> TileCursor {
        self.cursor
    }

    pub closed spec fn spec_color(self) -> Color {
        self.color
    }

    /// A marker at `cursor`, filled with `color`.
    pub fn new(cursor: TileCursor, color: Color) -> (m: Self)
        ensures
            m.spec_cursor() == cursor,
            m.spec_color() == color,
    {
        TileMarker { cursor, color }
    }

    /// The marker's cell position.
    pub fn cursor(&self) -> (c: TileCursor)
        ensures
            c == self.spec_cursor(),
    {
        self.cursor
    }

    /// The marker's cell position, for stepping it.
    pub fn cursor_mut(&mut self) -> (c: &mut TileCursor)
        ensures
            *c == old(self).spec_cursor(),
            final(self).spec_cursor() == *final(c),
            final(self).spec_color() == old(self).spec_color(),
    {
        &mut self.cursor
    }
}

impl PixelLayer for TileMarker {
    /// Fill the cursor's cell. A cell whose rectangle does not fit `i32`
    /// coordinates is not drawn.
    fn render(&self, screen: &mut Surface)
        ensures
            forall|x: int, y: int| #[trigger]
                final(screen).dims().holds(x, y) ==> final(screen).at(x, y) == (if self.spec_cursor().spec_grid().cell_fits(
                    self.spec_cursor().spec_col() as int,
                    self.spec_cursor().spec_row() as int,
                ) {
                    rect_word(
                        old(screen).at(x, y),
                        x,
                        y,
                        self.spec_cursor().spec_grid().cell_rect(
                            self.spec_cursor().spec_col() as int,
                            self.spec_cursor().spec_row() as int,
                        ),
                        self.spec_color(),
                    )
                } else {
                    old(screen).at(x, y)
                }),
    {
        match self.cursor.grid.fitted_rect(self.cursor.col, self.cursor.row) {
            Some(rect) => screen.fill_rect(rect, self.color),
            None => {},
        }
    }
}

/// One blit of a tile: the sheet, where it lands, and the options.
pub type TileBlit = (Sprite, Point, BlitOptions);

/// The word pixel `(x, y)` holds after `blits` are drawn in order over `prev`.
pub open spec fn apply_blits(prev: u32, x: int, y: int, blits: Seq<TileBlit>) -> u32
    decreases blits.len(),
{
    if blits.len() == 0 {
        prev
    } else {
        let b = blits.last();
        ex_word(apply_blits(prev, x, y, blits.drop_last()), x, y, b.0, b.1, b.2)
    }
}

/// The magnification a tileset with `source` tiles draws at in a grid of
/// `grid_tile` tiles: the whole-number ratio of widths, at least 1.
pub open spec fn tile_scale(grid_tile: Size, source: Size) -> u32 {
    let q = grid_tile.w / source.w;
    if q == 0 { 1 } else { q as u32 }
}

/// The options a tile region is drawn with.
pub open spec fn tile_options(region: Rect, scale: u32) -> BlitOptions {
    BlitOptions {
        region: Some(region),
        scale,
        flip_x: false,
        flip_y: false,
        turns: QuarterTurns::Upright,
        tint: None,
    }
}

/// The blits for the first `n` cells of `cells`, drawn with tileset `ts` at
/// `scale` onto `grid`, cells decomposed by `cols` columns. Empty cells, tiles
/// without a region, and cells whose rect does not fit are skipped.
pub open spec fn cell_blits(
    grid: TileGrid,
    cols: u32,
    ts: TileSet,
    scale: u32,
    cells: Seq<Option<TileId>>,
    n: int,
) -> Seq<TileBlit>
    decreases n,
{
    if n <= 0 {
        Seq::empty()
    } else {
        let prev = cell_blits(grid, cols, ts, scale, cells, n - 1);
        let i = n - 1;
        match cells[i] {
            None => prev,
            Some(id) => match ts.spec_region(id) {
                None => prev,
                Some(region) => {
                    if i <= u32::MAX && grid.cell_fits(i % cols as int, i / cols as int) {
                        prev.push(
                            (
                                ts.spec_sheet(),
                                grid.cell_rect(i % cols as int, i / cols as int).origin,
                                tile_options(region, scale),
                            ),
                        )
                    } else {
                        prev
                    }
                },
            },
        }
    }
}

/// The blits one layer contributes: none when its tileset is missing or has a
/// zero tile size.
pub open spec fn layer_blits(grid: TileGrid, cols: u32, sets: Seq<TileSet>, layer: TileLayer) -> Seq<
    TileBlit,
> {
    if layer.tileset.raw() < sets.len() {
        let ts = sets[layer.tileset.raw() as int];
        let source = ts.spec_tile_size();
        if source.w == 0 || source.h == 0 {
            Seq::empty()
        } else {
            cell_blits(
                grid,
                cols,
                ts,
                tile_scale(grid.spec_tile_size(), source),
                layer.cells@,
                layer.cells@.len() as int,
            )
        }
    } else {
        Seq::empty()
    }
}

/// The blits of the first `n` layers, bottom layer first.
pub open spec fn map_blits(grid: TileGrid, cols: u32, sets: Seq<TileSet>, layers: Seq<TileLayer>, n: int) -> Seq<
    TileBlit,
>
    decreases n,
{
    if n <= 0 {
        Seq::empty()
    } else {
        map_blits(grid, cols, sets, layers, n - 1) + layer_blits(grid, cols, sets, layers[n - 1])
    }
}

/// A [`TileMap`] drawn as a [`PixelLayer`]: each `Some` cell blits its tile's
/// sheet region at the cell's [`TileGrid::tile_rect`], integer-scaled to fill
/// the grid tile. Layers paint in order; empty cells and unresolved tilesets
/// are skipped.
pub struct TileMapView<'a> {
    map: &'a TileMap,
    grid: &'a TileGrid,
    tilesets: &'a TileSets,
}

impl<'a> TileMapView<'a> {
    #[verifier::type_invariant]
    closed spec fn inv(self) -> bool {
        self.tilesets.wf()
    }

    pub closed spec fn spec_map(self) -> TileMap {
        *self.map
    }

    pub closed spec fn spec_grid(self) -> TileGrid {
        *self.grid
    }

    pub closed spec fn spec_tilesets(self) -> TileSets {
        *self.tilesets
    }

    /// Every blit the view draws, in order.
    pub open spec fn blits(self) -> Seq<TileBlit> {
        if self.spec_map().spec_size().w == 0 {
            Seq::empty()
        } else {
            map_blits(
                self.spec_grid(),
                self.spec_map().spec_size().w,
                self.spec_tilesets().spec_sets(),
                self.spec_map().spec_layers(),
                self.spec_map().spec_layers().len() as int,
            )
        }
    }

    pub fn new(map: &'a TileMap, grid: &'a TileGrid, tilesets: &'a TileSets) -> (v: Self)
        requires
            tilesets.wf(),
        ensures
            v.spec_map() == *map,
            v.spec_grid() == *grid,
            v.spec_tilesets() == *tilesets,
    {
        TileMapView { map, grid, tilesets }
    }
}

impl<'a> PixelLayer for TileMapView<'a> {
    fn render(&self, screen: &mut Surface)
        ensures
            forall|x: int, y: int| #[trigger]
                final(screen).dims().holds(x, y) ==> final(screen).at(x, y) == apply_blits(
                    old(screen).at(x, y),
                    x,
                    y,
                    self.blits(),
                ),
    {
        proof {
            use_type_invariant(self);
        }
        let cols = self.map.size().w;
        if cols == 0 {
            return;
        }
        let layers = self.map.layers();
        let ghost grid = *self.grid;
        let ghost sets = self.tilesets.spec_sets();
        let mut l: usize = 0;
        while l < layers.len()
            invariant
                screen.wf(),
                screen.dims() == old(screen).dims(),
                self.spec_tilesets().wf(),
                cols == self.spec_map().spec_size().w,
                cols > 0,
                grid == self.spec_grid(),
                sets == self.spec_tilesets().spec_sets(),
                layers@ == self.spec_map().spec_layers(),
                l <= layers@.len(),
                forall|x: int, y: int| #[trigger]
                    screen.dims().holds(x, y) ==> screen.at(x, y) == apply_blits(
                        old(screen).at(x, y),
                        x,
                        y,
                        map_blits(grid, cols, sets, layers@, l as int),
                    ),
            decreases layers@.len() - l,
        {
            let layer = &layers[l];
            let ghost done = map_blits(grid, cols, sets, layers@, l as int);
            match self.tilesets.get(layer.tileset) {
                None => {
                    proof {
                        assert(map_blits(grid, cols, sets, layers@, l + 1) =~= done);
                    }
                },
                Some(tileset) => {
                    proof {
                        assert(self.tilesets.spec_sets()[layer.tileset.raw() as int].wf());
                    }
                    let source = tileset.tile_size();
                    if source.w == 0 || source.h == 0 {
                        proof {
                            assert(map_blits(grid, cols, sets, layers@, l + 1) =~= done);
                        }
                    } else {
                        let q = self.grid.tile_size().w / source.w;
                        let scale: u32 = if q == 0 {
                            1
                        } else {
                            q
                        };
                        let ghost ts = *tileset;
                        let mut i: usize = 0;
                        while i < layer.cells.len()
                            invariant
                                screen.wf(),
                                screen.dims() == old(screen).dims(),
                                cols > 0,
                                grid == self.spec_grid(),
                                ts == *tileset,
                                ts.wf(),
                                scale == tile_scale(grid.spec_tile_size(), ts.spec_tile_size()),
                                i <= layer.cells@.len(),
                                forall|x: int, y: int| #[trigger]
                                    screen.dims().holds(x, y) ==> screen.at(x, y) == apply_blits(
                                        old(screen).at(x, y),
                                        x,
                                        y,
                                        done + cell_blits(grid, cols, ts, scale, layer.cells@, i as int),
                                    ),
                            decreases layer.cells@.len() - i,
                        {
                            let ghost before_cell = done + cell_blits(
                                grid,
                                cols,
                                ts,
                                scale,
                                layer.cells@,
                                i as int,
                            );
                            match layer.cells[i] {
                                None => {
                                    proof {
                                        assert(done + cell_blits(grid, cols, ts, scale, layer.cells@, i + 1)
                                            =~= before_cell);
                                    }
                                },
                                Some(id) => {
                                    match tileset.region(id) {
                                        None => {
                                            proof {
                                                assert(done + cell_blits(
                                                    grid,
                                                    cols,
                                                    ts,
                                                    scale,
                                                    layer.cells@,
                                                    i + 1,
                                                ) =~= before_cell);
                                            }
                                        },
                                        Some(region) => {
                                            if i <= 0xffff_ffff {
                                                let index = i as u32;
                                                match self.grid.fitted_rect(index % cols, index / cols) {
                                                    None => {
                                                        proof {
                                                            assert(done + cell_blits(
                                                                grid,
                                                                cols,
                                                                ts,
                                                                scale,
                                                                layer.cells@,
                                                                i + 1,
                                                            ) =~= before_cell);
                                                        }
                                                    },
                                                    Some(rect) => {
                                                        let options = BlitOptions {
                                                            region: Some(region),
                                                            scale,
                                                            flip_x: false,
                                                            flip_y: false,
                                                            turns: QuarterTurns::Upright,
                                                            tint: None,
                                                        };
                                                        screen.draw_sprite_ex(
                                                            tileset.sheet(),
                                                            rect.origin,
                                                            options,
                                                        );
                                                        proof {
                                                            let op = (ts.spec_sheet(), rect.origin, options);
                                                            assert(index % cols == (i as int) % (cols as int));
                                                            assert(index / cols == (i as int) / (cols as int));
                                                            assert(done + cell_blits(
                                                                grid,
                                                                cols,
                                                                ts,
                                                                scale,
                                                                layer.cells@,
                                                                i + 1,
                                                            ) =~= before_cell.push(op));
                                                            assert(before_cell.push(op).drop_last() =~= before_cell);
                                                            assert forall|x: int, y: int| #[trigger]
                                                                screen.dims().holds(x, y) implies screen.at(x, y)
                                                                == apply_blits(
                                                                old(screen).at(x, y),
                                                                x,
                                                                y,
                                                                before_cell.push(op),
                                                            ) by {}
                                                        }
                                                    },
                                                }
                                            } else {
                                                proof {
                                                    assert(done + cell_blits(
                                                        grid,
                                                        cols,
                                                        ts,
                                                        scale,
                                                        layer.cells@,
                                                        i + 1,
                                                    ) =~= before_cell);
                                                }
                                            }
                                        },
                                    }
                                },
                            }
                            i += 1;
                        }
                        proof {
                            assert(map_blits(grid, cols, sets, layers@, l + 1) =~= done + cell_blits(
                                grid,
                                cols,
                                ts,
                                scale,
                                layer.cells@,
                                layer.cells@.len() as int,
                            ));
                        }
                    }
                },
            }
            l += 1;
        }
    }
}

/// The sheet holds whole tiles in a grid of [`TileSet::spec_whole_columns`]
/// columns by as many rows as tile heights fit the sheet, which is what
/// [`TileSet::len`] counts: a tile's region is there exactly when its column
/// is one of those columns and its row one of those rows.
pub proof fn law_len_counts_the_tiles_with_a_region(t: TileSet, id: TileId)
    requires
        !t.degenerate(),
    ensures
        t.spec_region(id) is Some <==> id.raw() % t.spec_columns() < t.spec_whole_columns()
            && id.raw() / t.spec_columns() < t.spec_sheet().dims().h / t.spec_tile_size().h,
        t.spec_len() == t.spec_whole_columns() * (t.spec_sheet().dims().h / t.spec_tile_size().h),
{
    let col = id.raw() % t.spec_columns();
    let row = id.raw() / t.spec_columns();
    lemma_whole_fits(col as int, t.spec_tile_size().w as int, t.spec_sheet().dims().w as int);
    lemma_whole_fits(row as int, t.spec_tile_size().h as int, t.spec_sheet().dims().h as int);
}

/// A tile at `c` of size `w` lies inside `total` exactly when `c` is below the
/// number of whole tiles that fit.
proof fn lemma_whole_fits(c: int, w: int, total: int)
    requires
        c >= 0,
        w > 0,
        total >= 0,
    ensures
        (c * w + w <= total) == (c < total / w),
{
    let q = total / w;
    assert(q * w <= total < q * w + w) by (nonlinear_arith)
        requires
            w > 0,
            total >= 0,
            q == total / w,
    ;
    if c < q {
        assert(c * w + w <= q * w) by (nonlinear_arith)
            requires
                c + 1 <= q,
                w > 0,
        ;
    } else {
        assert(c * w + w > total) by (nonlinear_arith)
            requires
                c >= q,
                w > 0,
                total < q * w + w,
        ;
    }
}

/// Law: a map's layers paint in order, each over those beneath: putting a
/// layer on top of a stack draws all of the stack's blits first and the new
/// layer's last, so wherever the top layer draws an opaque pixel it wins over
/// every layer below it.
pub proof fn law_a_layer_on_top_paints_last(
    grid: TileGrid,
    cols: u32,
    sets: Seq<TileSet>,
    layers: Seq<TileLayer>,
    top: TileLayer,
    prev: u32,
    x: int,
    y: int,
)
    ensures
        map_blits(grid, cols, sets, layers.push(top), layers.len() + 1int) == map_blits(
            grid,
            cols,
            sets,
            layers,
            layers.len() as int,
        ) + layer_blits(grid, cols, sets, top),
        apply_blits(prev, x, y, map_blits(grid, cols, sets, layers.push(top), layers.len() + 1int))
            == apply_blits(
            apply_blits(prev, x, y, map_blits(grid, cols, sets, layers, layers.len() as int)),
            x,
            y,
            layer_blits(grid, cols, sets, top),
        ),
{
    lemma_map_blits_prefix(grid, cols, sets, layers, top, layers.len() as int);
    assert(layers.push(top)[layers.len() as int] == top);
    lemma_apply_blits_append(
        prev,
        x,
        y,
        map_blits(grid, cols, sets, layers, layers.len() as int),
        layer_blits(grid, cols, sets, top),
    );
}

/// The first `n` layers' blits ignore layers stacked above them.
proof fn lemma_map_blits_prefix(
    grid: TileGrid,
    cols: u32,
    sets: Seq<TileSet>,
    layers: Seq<TileLayer>,
    top: TileLayer,
    n: int,
)
    requires
        0 <= n <= layers.len(),
    ensures
        map_blits(grid, cols, sets, layers.push(top), n) == map_blits(grid, cols, sets, layers, n),
    decreases n,
{
    if n > 0 {
        lemma_map_blits_prefix(grid, cols, sets, layers, top, n - 1);
        assert(layers.push(top)[n - 1] == layers[n - 1]);
    }
}

/// Drawing `a` then `b` is drawing `a + b`.
proof fn lemma_apply_blits_append(prev: u32, x: int, y: int, a: Seq<TileBlit>, b: Seq<TileBlit>)
    ensures
        apply_blits(prev, x, y, a + b) == apply_blits(apply_blits(prev, x, y, a), x, y, b),
    decreases b.len(),
{
    if b.len() > 0 {
        lemma_apply_blits_append(prev, x, y, a, b.drop_last());
        assert((a + b).drop_last() =~= a + b.drop_last());
        assert((a + b).last() == b.last());
    } else {
        assert(a + b =~= a);
    }
}

} // verus!
