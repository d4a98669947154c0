//! Laying a [`HighScores`] board out as ranked text rows for rendering.
//!
//! [`HighScoreLayout`] is the pure, font-free half of a high-score screen: it
//! turns a board into positioned, formatted rows — "rank name points", placed
//! top-to-bottom and wrapped into columns — and leaves the glyph rendering, the
//! header/footer copy, and the screen transition to the game.

use vstd::prelude::*;

use super::high_scores::HighScores;
use crate::chars::{
    clip, clipped_chars, decimal, pad_left, pad_right, push_decimal, push_padded_left,
    push_padded_right, string_from_chars,
};
use crate::geometry::Point;

verus! {

/// What `str::to_uppercase` makes of a string: the full Unicode upper-case
/// mapping, which may change the number of characters.
pub uninterp spec fn upper_cased(s: Seq<char>) -> Seq<char>;

/// Upper-case `s` with `str::to_uppercase`. Its result depends on the string
/// alone; the mapping itself is Unicode's and is not restated here.
#[verifier::external_body]
fn to_upper(s: &str) -> (u: String)
    ensures
        u@ == upper_cased(s@),
{
    s.to_uppercase()
}

/// One formatted, positioned board row: the text to draw and where (in
/// virtual-screen pixels) to anchor it.
#[derive(Debug, Clone, PartialEq, Eq)]
pub struct PlacedRow {
    /// The rendered row text, e.g. `" 1 ADA    300"`.
    pub text: String,
    /// Where to anchor the row, in virtual-screen pixels.
    pub at: Point,
}

/// How a [`HighScores`] board lays out as ranked rows: where the first row sits,
/// the row and column spacing, how many rows fill a column before wrapping, and
/// the name field width. All in virtual-screen pixels.
#[derive(Debug, Clone, Copy, PartialEq, Eq, Structural)]
pub struct HighScoreLayout {
    /// Top-left of the first (rank 1) row.
    pub origin: Point,
    /// Vertical distance between rows within a column.
    pub row_pitch: i32,
    /// Horizontal distance between columns.
    pub column_width: i32,
    /// Rows filling a column before the next entry wraps to the next column.
    /// Treated as at least 1.
    pub rows_per_column: usize,
    /// Name field width: names are upper-cased and clipped to it, and padded to it
    /// so the points column stays aligned.
    pub name_width: usize,
}

impl HighScoreLayout {
    /// Rows per column, a zero read as one.
    pub open spec fn per_column(self) -> int {
        if self.rows_per_column == 0 {
            1
        } else {
            self.rows_per_column as int
        }
    }

    /// The column and row the 0-based entry `i` lands in.
    pub open spec fn cell_of(self, i: int) -> (int, int) {
        (i / self.per_column(), i % self.per_column())
    }

    /// The anchor of entry `i`, in exact arithmetic.
    pub open spec fn anchor(self, i: int) -> (int, int) {
        (
            self.origin.x + self.cell_of(i).0 * self.column_width,
            self.origin.y + self.cell_of(i).1 * self.row_pitch,
        )
    }

    /// Entry `i`'s column, row and anchor are all `i32` values.
    pub open spec fn fits(self, i: int) -> bool {
        &&& self.cell_of(i).0 <= i32::MAX
        &&& self.cell_of(i).1 <= i32::MAX
        &&& i32::MIN <= self.anchor(i).0 <= i32::MAX
        &&& i32::MIN <= self.anchor(i).1 <= i32::MAX
    }

    /// The text of the row ranked `rank` (1-based): the rank right-aligned in
    /// two, a space, the upper-cased name clipped and left-aligned to
    /// `name_width`, then the points right-aligned in five.
    pub open spec fn row_text(self, rank: nat, upper_name: Seq<char>, points: u32) -> Seq<char> {
        pad_left(decimal(rank), 2) + seq![' '] + pad_right(
            clip(upper_name, self.name_width as nat),
            self.name_width as nat,
        ) + pad_left(decimal(points as nat), 5)
    }

    /// How many entries of a board of `len` are shown under `capacity`.
    pub open spec fn shown(len: int, capacity: int) -> int {
        if len < capacity {
            len
        } else {
            capacity
        }
    }

    /// How deep the first (tallest) column is for `shown` rows.
    pub open spec fn depth(self, shown: int) -> int {
        if shown < self.per_column() {
            shown
        } else {
            self.per_column()
        }
    }

    /// The row for the 0-based entry `index`, given its already upper-cased
    /// name and its points.
    pub fn place(&self, index: usize, upper_name: &str, points: u32) -> (r: PlacedRow)
        requires
            self.fits(index as int),
            index < u64::MAX,
        ensures
            r.text@ == self.row_text((index + 1) as nat, upper_name@, points),
            r.at.x == self.anchor(index as int).0,
            r.at.y == self.anchor(index as int).1,
    {
        let per: usize = if self.rows_per_column == 0 {
            1
        } else {
            self.rows_per_column
        };
        let mut rank_digits: Vec<char> = Vec::new();
        push_decimal(&mut rank_digits, (index as u64) + 1);
        let mut points_digits: Vec<char> = Vec::new();
        push_decimal(&mut points_digits, points as u64);
        let name = clipped_chars(upper_name, self.name_width);
        let mut text: Vec<char> = Vec::new();
        push_padded_left(&mut text, &rank_digits, 2);
        text.push(' ');
        push_padded_right(&mut text, &name, self.name_width);
        push_padded_left(&mut text, &points_digits, 5);
        proof {
            assert(rank_digits@ =~= decimal((index + 1) as nat));
            assert(points_digits@ =~= decimal(points as nat));
            assert(text@ =~= self.row_text((index + 1) as nat, upper_name@, points));
        }
        let column = (index / per) as i32;
        let row = (index % per) as i32;
        let cw = self.column_width as i64;
        let rp = self.row_pitch as i64;
        proof {
            assert(column as int == self.cell_of(index as int).0);
            assert(row as int == self.cell_of(index as int).1);
            assert(-0x8000_0000 * 0x8000_0000 <= column * cw <= 0x8000_0000 * 0x8000_0000)
                by (nonlinear_arith)
                requires
                    0 <= column <= 0x7fff_ffff,
                    -0x8000_0000 <= cw <= 0x7fff_ffff,
            ;
            assert(-0x8000_0000 * 0x8000_0000 <= row * rp <= 0x8000_0000 * 0x8000_0000)
                by (nonlinear_arith)
                requires
                    0 <= row <= 0x7fff_ffff,
                    -0x8000_0000 <= rp <= 0x7fff_ffff,
            ;
        }
        let x = self.origin.x as i64 + (column as i64) * cw;
        let y = self.origin.y as i64 + (row as i64) * rp;
        PlacedRow { text: string_from_chars(&text), at: Point { x: x as i32, y: y as i32 } }
    }

    /// The board's entries (up to `capacity`) as ranked, positioned rows,
    /// filling a column top-to-bottom, then wrapping to the next after
    /// `rows_per_column`.
    pub fn rows(&self, board: &HighScores, capacity: usize) -> (rs: Vec<PlacedRow>)
        requires
            forall|i: int|
                0 <= i < Self::shown(board@.len() as int, capacity as int) ==> #[trigger] self.fits(i),
        ensures
            rs@.len() == Self::shown(board@.len() as int, capacity as int),
            forall|i: int|
                0 <= i < rs@.len() ==> {
                    &&& (#[trigger] rs@[i]).text@ == self.row_text(
                        (i + 1) as nat,
                        upper_cased(board@[i].0),
                        board@[i].1,
                    )
                    &&& rs@[i].at.x == self.anchor(i).0
                    &&& rs@[i].at.y == self.anchor(i).1
                },
    {
        let entries = board.entries();
        let shown = if entries.len() < capacity {
            entries.len()
        } else {
            capacity
        };
        let mut out: Vec<PlacedRow> = Vec::new();
        let mut i: usize = 0;
        while i < shown
            invariant
                shown == Self::shown(board@.len() as int, capacity as int),
                entries@.map_values(|e: super::high_scores::HighScoreEntry| e@) == board@,
                shown <= entries@.len(),
                i <= shown,
                out@.len() == i,
                forall|j: int|
                    0 <= j < Self::shown(board@.len() as int, capacity as int) ==> #[trigger] self.fits(j),
                forall|j: int|
                    0 <= j < i ==> {
                        &&& (#[trigger] out@[j]).text@ == self.row_text(
                            (j + 1) as nat,
                            upper_cased(board@[j].0),
                            board@[j].1,
                        )
                        &&& out@[j].at.x == self.anchor(j).0
                        &&& out@[j].at.y == self.anchor(j).1
                    },
            decreases shown - i,
        {
            let entry = &entries[i];
            proof {
                assert(board@[i as int] == entry@);
                assert(self.fits(i as int));
            }
            let upper = to_upper(entry.name.as_str());
            let row = self.place(i, upper.as_str(), entry.points);
            out.push(row);
            i += 1;
        }
        out
    }

    /// The anchor just past the bottom of the tallest column — where a game can
    /// place a footer under the board. The first column fills first, so it is
    /// the tallest.
    pub fn below(&self, board: &HighScores, capacity: usize) -> (p: Point)
        requires
            i32::MIN <= self.origin.y + self.depth(Self::shown(board@.len() as int, capacity as int))
                * self.row_pitch <= i32::MAX,
            self.depth(Self::shown(board@.len() as int, capacity as int)) <= i32::MAX,
        ensures
            p.x == self.origin.x,
            p.y == self.origin.y + self.depth(Self::shown(board@.len() as int, capacity as int))
                * self.row_pitch,
    {
        let n = board.len();
        let shown = if n < capacity {
            n
        } else {
            capacity
        };
        let per: usize = if self.rows_per_column == 0 {
            1
        } else {
            self.rows_per_column
        };
        let deep = if shown < per {
            shown
        } else {
            per
        };
        let rows_deep = deep as i32;
        let rp = self.row_pitch as i64;
        proof {
            assert(-0x8000_0000 * 0x8000_0000 <= rows_deep * rp <= 0x8000_0000 * 0x8000_0000)
                by (nonlinear_arith)
                requires
                    0 <= rows_deep <= 0x7fff_ffff,
                    -0x8000_0000 <= rp <= 0x7fff_ffff,
            ;
        }
        let y = self.origin.y as i64 + (rows_deep as i64) * rp;
        Point { x: self.origin.x, y: y as i32 }
    }
}

} // verus!
