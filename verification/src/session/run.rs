//! Arcade run-state: the lives / 1-up / game-over loop layered over the
//! [`Score`] and [`LevelProgress`] a session already tracks.
//!
//! A game feeds it three events (a level was cleared, an attempt failed, a 1-up
//! was collected) and reads back a [`RunPhase`] (`Playing`, `GameOver`, or
//! `Won`). Scoring policy and what counts as "cleared" stay with the caller.

use super::progress::{sat_add, LevelProgress, Score};
use vstd::prelude::*;

verus! {

/// A pool of arcade lives: lose one on a failed attempt, gain one from a 1-up,
/// game over at zero.
#[derive(Debug, Clone, Copy, PartialEq, Eq, Structural)]
pub struct Lives {
    pub current: u32,
    pub starting: u32,
}

impl Lives {
    /// A full pool of `starting` lives. `starting == 0` is game over from the
    /// outset.
    pub fn new(starting: u32) -> (l: Self)
        ensures
            l.current == starting,
            l.starting == starting,
    {
        Self { current: starting, starting }
    }

    /// The lives remaining.
    pub fn count(self) -> (c: u32)
        ensures
            c == self.current,
    {
        self.current
    }

    /// The pool a fresh run begins with (and [`reset`](Lives::reset)s to).
    pub fn starting(self) -> (s: u32)
        ensures
            s == self.starting,
    {
        self.starting
    }

    /// Whether no lives remain.
    pub open spec fn dead(self) -> bool {
        self.current == 0
    }

    /// Whether no lives remain.
    pub fn is_game_over(self) -> (b: bool)
        ensures
            b == self.dead(),
    {
        self.current == 0
    }

    /// Lose one life, saturating at zero. Returns whether the run continues.
    pub fn lose(&mut self) -> (alive: bool)
        ensures
            final(self).starting == old(self).starting,
            final(self).current == (if old(self).current == 0 {
                0
            } else {
                old(self).current - 1
            }),
            alive == !final(self).dead(),
    {
        self.current = self.current.saturating_sub(1);
        !self.is_game_over()
    }

    /// Gain one life from a 1-up, saturating at `u32::MAX`. A 1-up collected at
    /// zero revives the run.
    pub fn gain(&mut self)
        ensures
            final(self).starting == old(self).starting,
            final(self).current == sat_add(old(self).current as int, 1),
    {
        self.current = self.current.saturating_add(1);
    }

    /// Refill to the starting pool for a new run.
    pub fn reset(&mut self)
        ensures
            final(self).starting == old(self).starting,
            final(self).current == old(self).starting,
    {
        self.current = self.starting;
    }
}

/// Where an arcade [`Run`] stands.
#[derive(Debug, Clone, Copy, PartialEq, Eq, Structural)]
pub enum RunPhase {
    /// Lives remain and levels are left to clear.
    Playing,
    /// Out of lives.
    GameOver,
    /// Every level cleared.
    Won,
}

/// An arcade run: a [`Score`], a pool of [`Lives`], and [`LevelProgress`].
#[derive(Debug, Clone, Copy, PartialEq, Eq, Structural)]
pub struct Run {
    pub score: Score,
    pub lives: Lives,
    pub levels: LevelProgress,
}

impl Run {
    /// The phase a run with these parts is in: game over once out of lives, won
    /// once every level is cleared, otherwise still playing. A dead run is never
    /// won.
    pub open spec fn spec_phase(self) -> RunPhase {
        if self.lives.dead() {
            RunPhase::GameOver
        } else if self.levels.complete() {
            RunPhase::Won
        } else {
            RunPhase::Playing
        }
    }

    /// A new run over `levels` levels with `lives` lives and a zero score.
    pub fn new(lives: u32, levels: usize) -> (r: Self)
        ensures
            r.score.0 == 0,
            r.lives == (Lives { current: lives, starting: lives }),
            r.levels == (LevelProgress { total: levels, current: 0 }),
    {
        Self { score: Score::new(), lives: Lives::new(lives), levels: LevelProgress::new(levels) }
    }

    /// The running score.
    pub fn score(self) -> (s: Score)
        ensures
            s == self.score,
    {
        self.score
    }

    /// The lives pool.
    pub fn lives(self) -> (l: Lives)
        ensures
            l == self.lives,
    {
        self.lives
    }

    /// Progress through the levels.
    pub fn levels(self) -> (l: LevelProgress)
        ensures
            l == self.levels,
    {
        self.levels
    }

    /// The current phase.
    pub fn phase(self) -> (p: RunPhase)
        ensures
            p == self.spec_phase(),
    {
        if self.lives.is_game_over() {
            RunPhase::GameOver
        } else if self.levels.is_complete() {
            RunPhase::Won
        } else {
            RunPhase::Playing
        }
    }

    /// Award `points`.
    pub fn award(&mut self, points: u32)
        ensures
            final(self).score.0 == sat_add(old(self).score.0 as int, points as int),
            final(self).lives == old(self).lives,
            final(self).levels == old(self).levels,
    {
        self.score.add(points);
    }

    /// Clear the current level and advance. Returns the resulting phase.
    pub fn clear_level(&mut self) -> (p: RunPhase)
        ensures
            final(self).score == old(self).score,
            final(self).lives == old(self).lives,
            final(self).levels.total == old(self).levels.total,
            final(self).levels.current == (if old(self).levels.complete() {
                old(self).levels.current as int
            } else {
                old(self).levels.current + 1
            }),
            p == final(self).spec_phase(),
    {
        self.levels.advance();
        self.phase()
    }

    /// Register a failed attempt: lose a life. Returns the resulting phase.
    pub fn fail(&mut self) -> (p: RunPhase)
        ensures
            final(self).score == old(self).score,
            final(self).levels == old(self).levels,
            final(self).lives.starting == old(self).lives.starting,
            final(self).lives.current == (if old(self).lives.current == 0 {
                0
            } else {
                old(self).lives.current - 1
            }),
            p == final(self).spec_phase(),
    {
        self.lives.lose();
        self.phase()
    }

    /// Collect a 1-up: gain a life (reviving the run if it was game over).
    pub fn one_up(&mut self)
        ensures
            final(self).score == old(self).score,
            final(self).levels == old(self).levels,
            final(self).lives.starting == old(self).lives.starting,
            final(self).lives.current == sat_add(old(self).lives.current as int, 1),
    {
        self.lives.gain();
    }

    /// Restart: zero score, refill lives, back to the first level.
    pub fn reset(&mut self)
        ensures
            final(self).score.0 == 0,
            final(self).lives.current == old(self).lives.starting,
            final(self).lives.starting == old(self).lives.starting,
            final(self).levels.total == old(self).levels.total,
            final(self).levels.current == 0,
    {
        self.score.reset();
        self.lives.reset();
        self.levels = LevelProgress::new(self.levels.total());
    }
}

/// Law: a run lost for lack of lives is never reported as won, and a run with
/// lives left reports won exactly when every level is cleared.
pub proof fn law_game_over_takes_precedence(run: Run)
    ensures
        run.lives.current == 0 ==> run.spec_phase() == RunPhase::GameOver,
        run.lives.current > 0 ==> (run.spec_phase() == RunPhase::Won <==> run.levels.current
            >= run.levels.total),
{
}

/// Law: losing a life and then collecting a 1-up restores a pool that was not
/// empty (the counts that [`Lives::lose`] and [`Lives::gain`] produce).
pub proof fn law_one_up_undoes_a_loss(current: u32)
    requires
        current > 0,
    ensures
        sat_add((current - 1) as int, 1) == current,
{
}

} // verus!
