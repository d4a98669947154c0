//! A high-score board planned as text lines: an optional header, the ranked
//! rows, then an optional footer under the rows, in draw order. A host bakes
//! each line into a banner in its own style.

use vstd::prelude::*;

use super::high_score_layout::{upper_cased, HighScoreLayout};
use super::high_scores::HighScores;
use crate::geometry::Point;

verus! {

/// One board line: its text, where it anchors (virtual-screen pixels), and
/// its magnification.
#[derive(Debug, Clone, PartialEq, Eq)]
pub struct BoardLine {
    pub text: String,
    pub at: Point,
    pub scale: u32,
}

impl View for BoardLine {
    type V = (Seq<char>, Point, u32);

    open spec fn view(&self) -> (Seq<char>, Point, u32) {
        (self.text@, self.at, self.scale)
    }
}

/// A footer under the board's tallest column: its text, the gap below the
/// rows, and its magnification.
#[derive(Debug, Clone, PartialEq, Eq)]
pub struct BoardFooter {
    pub text: String,
    pub gap_below_rows: i32,
    pub scale: u32,
}

/// How a board is laid out: the rows' layout, how many entries to show, the
/// rows' magnification, and the optional header and footer.
#[derive(Debug, Clone, PartialEq, Eq)]
pub struct HighScoreBoardSpec {
    pub layout: HighScoreLayout,
    pub capacity: usize,
    pub row_scale: u32,
    pub header: Option<BoardLine>,
    pub footer: Option<BoardFooter>,
}

impl HighScoreBoardSpec {
    /// How many entries of `scores` are shown.
    pub open spec fn shown(self, scores: HighScores) -> int {
        HighScoreLayout::shown(scores@.len() as int, self.capacity as int)
    }

    /// Where the footer anchors: the gap below the tallest column.
    pub open spec fn footer_at(self, scores: HighScores, gap: i32) -> (int, int) {
        (
            self.layout.origin.x as int,
            self.layout.origin.y + self.layout.depth(self.shown(scores)) * self.layout.row_pitch
                + gap,
        )
    }

    /// Every shown row, and the footer's anchor, are `i32` positions.
    pub open spec fn fits(self, scores: HighScores) -> bool {
        &&& forall|i: int| 0 <= i < self.shown(scores) ==> #[trigger] self.layout.fits(i)
        &&& self.footer matches Some(f) ==> {
            &&& i32::MIN <= self.layout.origin.y + self.layout.depth(self.shown(scores))
                * self.layout.row_pitch <= i32::MAX
            &&& self.layout.depth(self.shown(scores)) <= i32::MAX
            &&& i32::MIN <= self.footer_at(scores, f.gap_below_rows).1 <= i32::MAX
        }
    }

    /// The lines the board draws: the header, the rows, the footer.
    pub open spec fn line_count(self, scores: HighScores) -> int {
        (if self.header is Some { 1int } else { 0 }) + self.shown(scores) + (if self.footer is Some {
            1int
        } else {
            0
        })
    }

    /// The line the board draws for the 0-based entry `i`.
    pub open spec fn row_line(self, scores: HighScores, i: int) -> (Seq<char>, Point, u32) {
        (
            self.layout.row_text((i + 1) as nat, upper_cased(scores@[i].0), scores@[i].1),
            Point { x: self.layout.anchor(i).0 as i32, y: self.layout.anchor(i).1 as i32 },
            self.row_scale,
        )
    }
}

/// A board's lines, in draw order.
#[derive(Debug, Clone)]
pub struct HighScoreBoard {
    lines: Vec<BoardLine>,
}

impl HighScoreBoard {
    /// The lines, as text, anchor and magnification.
    pub closed spec fn spec_lines(self) -> Seq<(Seq<char>, Point, u32)> {
        self.lines@.map_values(|l: BoardLine| l@)
    }

    /// Lay `scores` out per `spec`: the header (if any), then the ranked rows
    /// (up to `spec.capacity`, placed by `spec.layout`), then the footer (if
    /// any), anchored its gap below the tallest column.
    pub fn new(scores: &HighScores, spec: &HighScoreBoardSpec) -> (b: Self)
        requires
            spec.fits(*scores),
        ensures
            b.spec_lines().len() == spec.line_count(*scores),
            spec.header matches Some(h) ==> b.spec_lines()[0] == h@,
            forall|i: int|
                0 <= i < spec.shown(*scores) ==> b.spec_lines()[(if spec.header is Some {
                    1int
                } else {
                    0
                }) + i] == #[trigger] spec.row_line(*scores, i),
            spec.footer matches Some(f) ==> b.spec_lines().last() == (
                f.text@,
                Point {
                    x: spec.footer_at(*scores, f.gap_below_rows).0 as i32,
                    y: spec.footer_at(*scores, f.gap_below_rows).1 as i32,
                },
                f.scale,
            ),
    {
        let mut lines: Vec<BoardLine> = Vec::new();
        let off: usize = match &spec.header {
            Some(h) => {
                lines.push(BoardLine { text: h.text.clone(), at: h.at, scale: h.scale });
                1
            },
            None => 0,
        };
        let rows = spec.layout.rows(scores, spec.capacity);
        let mut i: usize = 0;
        while i < rows.len()
            invariant
                rows@.len() == spec.shown(*scores),
                off == (if spec.header is Some { 1int } else { 0 }),
                lines@.len() == off + i,
                i <= rows@.len(),
                spec.header matches Some(h) ==> lines@[0]@ == h@,
                forall|j: int|
                    0 <= j < rows@.len() ==> {
                        &&& (#[trigger] rows@[j]).text@ == spec.layout.row_text(
                            (j + 1) as nat,
                            upper_cased(scores@[j].0),
                            scores@[j].1,
                        )
                        &&& rows@[j].at.x == spec.layout.anchor(j).0
                        &&& rows@[j].at.y == spec.layout.anchor(j).1
                    },
                forall|j: int| 0 <= j < i ==> #[trigger] lines@[off + j]@ == spec.row_line(*scores, j),
            decreases rows@.len() - i,
        {
            let row = &rows[i];
            lines.push(BoardLine { text: row.text.clone(), at: row.at, scale: spec.row_scale });
            proof {
                assert(lines@[off + i as int]@ == spec.row_line(*scores, i as int));
            }
            i = i + 1;
        }
        match &spec.footer {
            Some(f) => {
                let below = spec.layout.below(scores, spec.capacity);
                let at = Point { x: below.x, y: below.y + f.gap_below_rows };
                lines.push(BoardLine { text: f.text.clone(), at, scale: f.scale });
            },
            None => {},
        }
        let b = HighScoreBoard { lines };
        proof {
            let s = b.spec_lines();
            assert(forall|k: int| 0 <= k < lines@.len() ==> s[k] == #[trigger] lines@[k]@);
            assert forall|j: int| 0 <= j < spec.shown(*scores) implies s[off + j]
                == #[trigger] spec.row_line(*scores, j) by {
                assert(s[off + j] == lines@[off + j]@);
            }
        }
        b
    }

    /// The lines, in draw order.
    pub fn lines(&self) -> (l: &Vec<BoardLine>)
        ensures
            l@.map_values(|x: BoardLine| x@) == self.spec_lines(),
    {
        &self.lines
    }

    /// The lines themselves, for a host that keeps them.
    pub fn into_lines(self) -> (l: Vec<BoardLine>)
        ensures
            l@.map_values(|x: BoardLine| x@) == self.spec_lines(),
    {
        self.lines
    }
}

} // verus!
