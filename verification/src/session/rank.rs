//! Rank-based endings: the ordered rules that turn a finished run's facts into
//! an arcade ending title ("MATH MASTER", "NO MISS CHAMP", …).
//!
//! Rules are tried in order and the first match wins, so a game lists its
//! proudest rank first. The [`Default`] is a no-op — no rules, so every run
//! ranks as `None`.

use super::game_run::RunTally;
use vstd::prelude::*;

verus! {

/// One rank: a title awarded when a finished run meets every requirement.
/// Fields left at their defaults require nothing.
#[derive(Debug, Clone, PartialEq, Eq)]
pub struct RankRule {
    /// The ending title this rank awards.
    pub title: String,
    /// Whether the run must have been won.
    pub requires_won: bool,
    /// The least points the run must have scored.
    pub min_points: u32,
    /// The most failed attempts the run may have made (`Some(0)` = flawless).
    pub max_failures: Option<u32>,
}

impl Default for RankRule {
    fn default() -> (r: Self)
        ensures
            r.title@ == Seq::<char>::empty(),
            !r.requires_won,
            r.min_points == 0,
            r.max_failures is None,
    {
        RankRule { title: String::new(), requires_won: false, min_points: 0, max_failures: None }
    }
}

impl RankRule {
    /// Whether a run with these facts earns this rank.
    pub open spec fn earned_by(self, won: bool, tally: RunTally, points: u32) -> bool {
        &&& (self.requires_won ==> won)
        &&& points >= self.min_points
        &&& match self.max_failures {
            Some(max) => tally.failures <= max,
            None => true,
        }
    }

    /// Whether a run with these facts earns this rank.
    pub fn matches(&self, won: bool, tally: RunTally, points: u32) -> (b: bool)
        ensures
            b == self.earned_by(won, tally, points),
    {
        if self.requires_won && !won {
            return false;
        }
        if points < self.min_points {
            return false;
        }
        match self.max_failures {
            Some(max) => tally.failures <= max,
            None => true,
        }
    }
}

/// A game's whole ranking policy: rules tried in order, first match wins.
#[derive(Debug, Clone, PartialEq, Eq)]
pub struct RankRules {
    /// The ranks, proudest first.
    pub rules: Vec<RankRule>,
}

impl Default for RankRules {
    fn default() -> (r: Self)
        ensures
            r.rules@.len() == 0,
    {
        RankRules { rules: Vec::new() }
    }
}

/// Why a [`RankRules`] was rejected as malformed.
#[derive(Debug, Clone, Copy, PartialEq, Eq, Structural)]
pub enum RankRulesError {
    /// A rule's title was empty — it would award a blank ending.
    EmptyTitle { index: usize },
}

/// Index `i` is the first rule these facts earn.
pub open spec fn first_earned(rules: Seq<RankRule>, i: int, won: bool, tally: RunTally, points: u32) -> bool {
    &&& 0 <= i < rules.len()
    &&& rules[i].earned_by(won, tally, points)
    &&& forall|j: int| 0 <= j < i ==> !(#[trigger] rules[j]).earned_by(won, tally, points)
}

impl RankRules {
    /// Check the policy is well-formed: every rule has a title. Reports the
    /// first empty title's index.
    pub fn validate(&self) -> (r: Result<(), RankRulesError>)
        ensures
            r is Ok <==> forall|i: int| 0 <= i < self.rules@.len() ==> (#[trigger] self.rules@[i]).title@.len() > 0,
            r matches Err(RankRulesError::EmptyTitle { index }) ==> index < self.rules@.len()
                && self.rules@[index as int].title@.len() == 0 && forall|j: int| 0 <= j < index
                ==> (#[trigger] self.rules@[j]).title@.len() > 0,
    {
        let mut index: usize = 0;
        while index < self.rules.len()
            invariant
                index <= self.rules@.len(),
                forall|j: int| 0 <= j < index ==> (#[trigger] self.rules@[j]).title@.len() > 0,
            decreases self.rules@.len() - index,
        {
            if self.rules[index].title.as_str().is_empty() {
                return Err(RankRulesError::EmptyTitle { index });
            }
            index = index + 1;
        }
        Ok(())
    }

    /// The ending title for a run that finished with these facts: the first
    /// rule the run earns, or `None` when no rule matches.
    pub fn rank(&self, won: bool, tally: RunTally, points: u32) -> (r: Option<&str>)
        ensures
            r is None <==> forall|i: int| 0 <= i < self.rules@.len() ==> !(#[trigger] self.rules@[i]).earned_by(won, tally, points),
            r matches Some(t) ==> exists|i: int| first_earned(self.rules@, i, won, tally, points)
                && t@ == #[trigger] self.rules@[i].title@,
    {
        let mut i: usize = 0;
        while i < self.rules.len()
            invariant
                i <= self.rules@.len(),
                forall|j: int| 0 <= j < i ==> !(#[trigger] self.rules@[j]).earned_by(won, tally, points),
            decreases self.rules@.len() - i,
        {
            if self.rules[i].matches(won, tally, points) {
                let t = self.rules[i].title.as_str();
                proof {
                    assert(first_earned(self.rules@, i as int, won, tally, points));
                }
                return Some(t);
            }
            i = i + 1;
        }
        None
    }
}

} // verus!
