//! A level clear/fail goal: enough successes before too many failures.
//!
//! `LevelGoal` counts successes and failures toward fixed thresholds and reports
//! whether the current level is still in progress, cleared, or failed. It
//! carries no scoring, lives, or level advancement; a game feeds it a stream of
//! success/failure outcomes and drives the rest from the [`LevelOutcome`].

use vstd::prelude::*;

verus! {

/// Why a [`LevelGoal`] was rejected at construction.
#[derive(Debug, Clone, Copy, PartialEq, Eq, Structural)]
pub enum LevelGoalError {
    /// `required_successes` was zero — a level must need at least one success.
    ZeroRequired,
}

/// Where a [`LevelGoal`] stands given the successes and failures so far.
#[derive(Debug, Clone, Copy, PartialEq, Eq, Structural)]
pub enum LevelOutcome {
    /// Neither threshold reached yet.
    InProgress,
    /// Reached `required_successes` — the level is cleared.
    Cleared,
    /// Exceeded `max_failures` — the level is failed.
    Failed,
}

/// A per-level clear/fail goal: cleared by reaching `required_successes`,
/// failed once failures exceed `max_failures`. The first terminal outcome is
/// sticky — once cleared or failed, further records are ignored.
#[derive(Debug, Clone, Copy, PartialEq, Eq, Structural)]
pub struct LevelGoal {
    pub required_successes: u32,
    pub max_failures: u32,
    pub successes: u32,
    pub failures: u32,
}

impl LevelGoal {
    /// The outcome for the recorded counts.
    pub open spec fn spec_outcome(self) -> LevelOutcome {
        if self.successes >= self.required_successes {
            LevelOutcome::Cleared
        } else if self.failures > self.max_failures {
            LevelOutcome::Failed
        } else {
            LevelOutcome::InProgress
        }
    }

    /// The goal's counting invariant: counts stop at the first terminal
    /// outcome, so neither passes its threshold by more than the one record
    /// that reached it.
    pub open spec fn wf(self) -> bool {
        &&& self.required_successes > 0
        &&& self.successes <= self.required_successes
        &&& self.failures <= self.max_failures as int + 1
        &&& !(self.successes >= self.required_successes && self.failures > self.max_failures)
    }

    /// A fresh goal with these thresholds.
    pub open spec fn fresh(required: u32, max_failures: u32) -> LevelGoal {
        LevelGoal { required_successes: required, max_failures, successes: 0, failures: 0 }
    }

    /// The goal after recording one attempt.
    pub open spec fn spec_record(self, success: bool) -> LevelGoal {
        if self.spec_outcome() != LevelOutcome::InProgress {
            self
        } else if success {
            LevelGoal { successes: (self.successes + 1) as u32, ..self }
        } else {
            LevelGoal { failures: (self.failures + 1) as u32, ..self }
        }
    }

    /// A goal cleared at `required_successes` and failed once failures exceed
    /// `max_failures`. Fails with [`LevelGoalError::ZeroRequired`] exactly when
    /// `required_successes == 0`.
    pub fn new(required_successes: u32, max_failures: u32) -> (r: Result<Self, LevelGoalError>)
        ensures
            required_successes == 0 ==> r == Err::<Self, LevelGoalError>(
                LevelGoalError::ZeroRequired,
            ),
            required_successes != 0 ==> r == Ok::<Self, LevelGoalError>(
                LevelGoal::fresh(required_successes, max_failures),
            ),
    {
        if required_successes == 0 {
            return Err(LevelGoalError::ZeroRequired);
        }
        Ok(Self { required_successes, max_failures, successes: 0, failures: 0 })
    }

    /// Successes required to clear the level.
    pub fn required_successes(self) -> (r: u32)
        ensures
            r == self.required_successes,
    {
        self.required_successes
    }

    /// Failures tolerated before the level fails.
    pub fn max_failures(self) -> (m: u32)
        ensures
            m == self.max_failures,
    {
        self.max_failures
    }

    /// Successes recorded so far.
    pub fn successes(self) -> (s: u32)
        ensures
            s == self.successes,
    {
        self.successes
    }

    /// Failures recorded so far.
    pub fn failures(self) -> (f: u32)
        ensures
            f == self.failures,
    {
        self.failures
    }

    /// The current outcome for the recorded counts.
    pub fn outcome(self) -> (o: LevelOutcome)
        ensures
            o == self.spec_outcome(),
    {
        if self.successes >= self.required_successes {
            LevelOutcome::Cleared
        } else if self.failures > self.max_failures {
            LevelOutcome::Failed
        } else {
            LevelOutcome::InProgress
        }
    }

    /// Record one success or failure and return the resulting outcome. Once the
    /// goal is terminal the record is ignored.
    pub fn record(&mut self, success: bool) -> (o: LevelOutcome)
        requires
            old(self).wf(),
            !success && old(self).spec_outcome() == LevelOutcome::InProgress ==> old(self).failures
                < u32::MAX,
        ensures
            *final(self) == old(self).spec_record(success),
            final(self).wf(),
            o == final(self).spec_outcome(),
    {
        let current = self.outcome();
        if current != LevelOutcome::InProgress {
            return current;
        }
        if success {
            self.successes += 1;
        } else {
            self.failures += 1;
        }
        self.outcome()
    }
}

/// Law: a terminal outcome is sticky — recording anything on a cleared or
/// failed goal leaves it, and its outcome, unchanged.
pub proof fn law_terminal_outcome_is_sticky(goal: LevelGoal, success: bool)
    requires
        goal.spec_outcome() != LevelOutcome::InProgress,
    ensures
        goal.spec_record(success) == goal,
        goal.spec_record(success).spec_outcome() == goal.spec_outcome(),
{
}

/// Law: every fresh goal is well formed, and recording keeps it so — counts
/// never run past the threshold that ended the level.
pub proof fn law_record_keeps_counts_bounded(goal: LevelGoal, success: bool)
    requires
        goal.wf(),
        !success && goal.spec_outcome() == LevelOutcome::InProgress ==> goal.failures < u32::MAX,
    ensures
        goal.spec_record(success).wf(),
        LevelGoal::fresh(goal.required_successes, goal.max_failures).wf(),
{
}

/// Law: a goal clears after exactly `required_successes` uninterrupted
/// successes, each earlier one leaving it in progress.
pub proof fn law_uninterrupted_successes_clear(goal: LevelGoal)
    requires
        goal.wf(),
        goal.spec_outcome() == LevelOutcome::InProgress,
        goal.successes + 1 == goal.required_successes,
    ensures
        goal.spec_record(true).spec_outcome() == LevelOutcome::Cleared,
{
}

} // verus!
