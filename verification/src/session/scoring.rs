//! Arcade scoring policy: how a run rewards combos and clean levels, and when it
//! grants extra lives.
//!
//! These are reusable *rules* a game fills with its own values; the mechanism
//! that applies them lives on [`GameRun`](super::GameRun). The [`Default`] is a
//! deliberate no-op — no combo bonus, no perfect bonus, no 1UP thresholds, and
//! no lives cap.

use crate::geometry::mul_u32;
use vstd::prelude::*;

verus! {

/// `a * b`, capped at `u32::MAX`.
pub open spec fn sat_mul(a: int, b: int) -> int {
    if a * b > u32::MAX {
        u32::MAX as int
    } else {
        a * b
    }
}

/// How a run rewards consecutive correct answers (a combo).
#[derive(Debug, Clone, Copy, PartialEq, Eq, Structural)]
pub struct StreakRules {
    /// Points added per consecutive success beyond the first; `0` disables it.
    pub bonus_per_step: u32,
}

impl Default for StreakRules {
    fn default() -> (r: Self)
        ensures
            r.bonus_per_step == 0,
    {
        StreakRules { bonus_per_step: 0 }
    }
}

impl StreakRules {
    /// The combo bonus for a streak: `bonus_per_step × (streak − 1)`, zero for
    /// a streak of one or none, saturating.
    pub open spec fn spec_bonus(self, streak: u32) -> int {
        sat_mul(self.bonus_per_step as int, if streak == 0 { 0 } else { streak - 1 })
    }

    /// The combo bonus for a current run of `streak` consecutive successes.
    pub fn bonus(self, streak: u32) -> (b: u32)
        ensures
            b == self.spec_bonus(streak),
    {
        let product = mul_u32(self.bonus_per_step, streak.saturating_sub(1));
        if product > u32::MAX as u64 {
            u32::MAX
        } else {
            product as u32
        }
    }
}

/// When a run grants extra lives, and the most it may hold.
#[derive(Debug, Clone, PartialEq, Eq)]
pub struct OneUpRules {
    /// The most lives a run may hold; a 1UP past it is forfeited.
    pub max_lives: u32,
    /// Cumulative-score marks that each grant one extra life the first time the
    /// running score reaches them. Must be strictly ascending and non-zero.
    pub thresholds: Vec<u32>,
}

impl Default for OneUpRules {
    fn default() -> (r: Self)
        ensures
            r.max_lives == u32::MAX,
            r.thresholds@.len() == 0,
    {
        Self { max_lives: u32::MAX, thresholds: Vec::new() }
    }
}

/// A run's whole scoring policy.
#[derive(Debug, Clone, PartialEq, Eq)]
pub struct ScoringRules {
    /// Points for clearing a level with no failures; `0` disables it.
    pub perfect_level_points: u32,
    /// The combo bonus.
    pub streak: StreakRules,
    /// The 1UP thresholds and lives cap.
    pub one_up: OneUpRules,
}

impl Default for ScoringRules {
    fn default() -> (r: Self)
        ensures
            r.perfect_level_points == 0,
            r.streak.bonus_per_step == 0,
            r.one_up.max_lives == u32::MAX,
            r.one_up.thresholds@.len() == 0,
    {
        Self {
            perfect_level_points: 0,
            streak: StreakRules::default(),
            one_up: OneUpRules::default(),
        }
    }
}

/// Why a [`ScoringRules`] was rejected as malformed.
#[derive(Debug, Clone, Copy, PartialEq, Eq, Structural)]
pub enum ScoringRulesError {
    /// A 1UP threshold was zero.
    ZeroThreshold,
    /// The 1UP thresholds were not strictly ascending.
    ThresholdsNotAscending,
    /// The lives cap is below the run's starting lives.
    MaxLivesBelowStart { max_lives: u32, starting_lives: u32 },
}

/// Every threshold is non-zero and they strictly ascend.
pub open spec fn thresholds_ok(t: Seq<u32>) -> bool {
    &&& forall|i: int| 0 <= i < t.len() ==> #[trigger] t[i] > 0
    &&& forall|i: int, j: int| 0 <= i < j < t.len() ==> #[trigger] t[i] < #[trigger] t[j]
}

/// The first problem scanning `t` left to right: a zero threshold, or one not
/// above its predecessor.
pub open spec fn first_bad(t: Seq<u32>) -> Option<(int, ScoringRulesError)>
    decreases t.len(),
{
    if t.len() == 0 {
        None
    } else {
        match first_bad(t.drop_last()) {
            Some(b) => Some(b),
            None => {
                let k = t.len() - 1;
                if t[k] == 0 {
                    Some((k, ScoringRulesError::ZeroThreshold))
                } else if k > 0 && t[k] <= t[k - 1] {
                    Some((k, ScoringRulesError::ThresholdsNotAscending))
                } else {
                    None
                }
            },
        }
    }
}

/// `first_bad` finds nothing exactly when the thresholds are well formed.
pub proof fn lemma_first_bad_none(t: Seq<u32>)
    ensures
        first_bad(t) is None <==> thresholds_ok(t),
    decreases t.len(),
{
    if t.len() > 0 {
        let p = t.drop_last();
        lemma_first_bad_none(p);
        if first_bad(t) is None {
            assert(thresholds_ok(p));
            let k = t.len() - 1;
            assert forall|i: int, j: int| 0 <= i < j < t.len() implies #[trigger] t[i] < #[trigger] t[j] by {
                if j < k {
                    assert(p[i] < p[j]);
                } else if i < k - 1 {
                    assert(p[i] < p[k - 1]);
                }
            }
            assert forall|i: int| 0 <= i < t.len() implies #[trigger] t[i] > 0 by {
                if i < k {
                    assert(p[i] > 0);
                }
            }
        } else if thresholds_ok(t) {
            assert forall|i: int, j: int| 0 <= i < j < p.len() implies #[trigger] p[i] < #[trigger] p[j] by {
                assert(t[i] < t[j]);
            }
            assert forall|i: int| 0 <= i < p.len() implies #[trigger] p[i] > 0 by {
                assert(t[i] > 0);
            }
            let k = t.len() - 1;
            assert(t[k] > 0);
            if k > 0 {
                assert(t[k - 1] < t[k]);
            }
        }
    }
}

impl ScoringRules {
    /// Check the policy is well-formed: every 1UP threshold is non-zero and the
    /// thresholds strictly ascend. Reports the first problem found.
    pub fn validate(&self) -> (r: Result<(), ScoringRulesError>)
        ensures
            r is Ok <==> thresholds_ok(self.one_up.thresholds@),
            r matches Err(e) ==> first_bad(self.one_up.thresholds@) matches Some((_, e2)) && e == e2,
    {
        let t = &self.one_up.thresholds;
        let mut i: usize = 0;
        proof {
            assert(t@.take(0) =~= Seq::<u32>::empty());
        }
        while i < t.len()
            invariant
                i <= t@.len(),
                t@ == self.one_up.thresholds@,
                first_bad(t@.take(i as int)) is None,
            decreases t@.len() - i,
        {
            let threshold = t[i];
            proof {
                assert(t@.take(i + 1).drop_last() =~= t@.take(i as int));
            }
            if threshold == 0 {
                proof {
                    assert(t@.take(i + 1)[i as int] == threshold);
                    assert(first_bad(t@.take(i + 1)) == Some((i as int, ScoringRulesError::ZeroThreshold)));
                    lemma_first_bad_prefix(t@, i as int + 1);
                    lemma_first_bad_none(t@);
                }
                return Err(ScoringRulesError::ZeroThreshold);
            }
            if i > 0 && threshold <= t[i - 1] {
                proof {
                    assert(t@.take(i + 1)[i as int] == threshold);
                    assert(t@.take(i + 1)[i - 1] == t@[i - 1]);
                    assert(first_bad(t@.take(i + 1)) == Some((i as int, ScoringRulesError::ThresholdsNotAscending)));
                    lemma_first_bad_prefix(t@, i as int + 1);
                    lemma_first_bad_none(t@);
                }
                return Err(ScoringRulesError::ThresholdsNotAscending);
            }
            i = i + 1;
        }
        proof {
            assert(t@.take(t@.len() as int) =~= t@);
            lemma_first_bad_none(t@);
        }
        Ok(())
    }
}

/// A problem found in a prefix is the first problem of the whole sequence.
pub proof fn lemma_first_bad_prefix(t: Seq<u32>, n: int)
    requires
        0 <= n <= t.len(),
        first_bad(t.take(n)) is Some,
    ensures
        first_bad(t) == first_bad(t.take(n)),
    decreases t.len() - n,
{
    if n < t.len() {
        assert(t.take(n + 1).drop_last() =~= t.take(n));
        lemma_first_bad_prefix(t, n + 1);
    } else {
        assert(t.take(n) =~= t);
    }
}

} // verus!
