//! Score and level progression — the pure state a session keeps around the
//! per-question quiz.

use vstd::prelude::*;

verus! {

/// `a + b`, capped at `u32::MAX`.
pub open spec fn sat_add(a: int, b: int) -> int {
    if a + b > u32::MAX {
        u32::MAX as int
    } else {
        a + b
    }
}

/// A running score in points.
#[derive(Debug, Clone, Copy, PartialEq, Eq, Structural)]
pub struct Score(pub u32);

impl Default for Score {
    fn default() -> (s: Self)
        ensures
            s.0 == 0,
    {
        Score(0)
    }
}

impl Score {
    /// A zero score.
    pub fn new() -> (s: Self)
        ensures
            s.0 == 0,
    {
        Score(0)
    }

    /// The current points.
    pub fn points(self) -> (p: u32)
        ensures
            p == self.0,
    {
        self.0
    }

    /// Add `points`, saturating at `u32::MAX`.
    pub fn add(&mut self, points: u32)
        ensures
            final(self).0 == sat_add(old(self).0 as int, points as int),
    {
        self.0 = self.0.saturating_add(points);
    }

    /// Reset back to zero.
    pub fn reset(&mut self)
        ensures
            final(self).0 == 0,
    {
        self.0 = 0;
    }
}

/// Progress through an ordered set of levels, tracked by a 0-based index.
#[derive(Debug, Clone, Copy, PartialEq, Eq, Structural)]
pub struct LevelProgress {
    pub total: usize,
    pub current: usize,
}

impl LevelProgress {
    /// Progress over `total` levels, starting at the first.
    pub fn new(total: usize) -> (p: Self)
        ensures
            p.total == total,
            p.current == 0,
    {
        Self { total, current: 0 }
    }

    /// The total number of levels.
    pub fn total(self) -> (t: usize)
        ensures
            t == self.total,
    {
        self.total
    }

    /// The current level index (`0..total`); equals `total` once complete.
    pub fn current(self) -> (c: usize)
        ensures
            c == self.current,
    {
        self.current
    }

    /// Whether every level has been cleared.
    pub open spec fn complete(self) -> bool {
        self.current >= self.total
    }

    /// Whether every level has been cleared.
    pub fn is_complete(self) -> (b: bool)
        ensures
            b == self.complete(),
    {
        self.current >= self.total
    }

    /// Levels left to play, including the current one.
    pub fn remaining(self) -> (r: usize)
        ensures
            r == (if self.current >= self.total {
                0
            } else {
                self.total - self.current
            }),
    {
        self.total.saturating_sub(self.current)
    }

    /// Advance to the next level. Returns whether a further level remains;
    /// once complete it is a no-op returning `false`.
    pub fn advance(&mut self) -> (more: bool)
        ensures
            old(self).complete() ==> *final(self) == *old(self),
            !old(self).complete() ==> final(self).total == old(self).total && final(self).current
                == old(self).current + 1,
            more == (!final(self).complete() && !old(self).complete()),
    {
        if self.is_complete() {
            return false;
        }
        self.current += 1;
        !self.is_complete()
    }
}

} // verus!
