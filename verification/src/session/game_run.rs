//! The arcade run controller: the choreography that sequences a whole
//! playthrough, tying [`PlayerProfile`], [`Run`], and a per-level [`LevelGoal`]
//! together from a set of [`GameRules`] or a per-level [`Campaign`].
//!
//! The seam is a plain `bool`: [`GameRun::record_attempt`] takes whether the
//! attempt succeeded and returns an [`AttemptOutcome`]. The domain rules that
//! decide success stay entirely with the caller.
//!
//! The whole transition is written down as [`attempt`] over the run's
//! [`GameRunView`], and [`GameRun::record_attempt`] is proved to perform it.

use super::level_goal::{LevelGoal, LevelOutcome};
use super::player::PlayerProfile;
use super::progress::{sat_add, LevelProgress, Score};
use super::rank::{first_earned, RankRules};
use super::run::{Lives, Run, RunPhase};
use super::scoring::{first_bad, thresholds_ok, ScoringRules, ScoringRulesError, StreakRules};
use crate::ui::{AnswerMode, AnswerModeError};
use vstd::prelude::*;

verus! {

/// The tunables for a whole playthrough: lives, levels, the clear/fail goal
/// each level repeats, and the points a success is worth.
#[derive(Debug, Clone, Copy, PartialEq, Eq, Structural)]
pub struct GameRules {
    /// Lives a run starts with (and refills to on reset).
    pub starting_lives: u32,
    /// Number of levels to clear to win the run.
    pub total_levels: usize,
    /// Successes needed to clear a level.
    pub required_successes: u32,
    /// Failures tolerated per level before it fails.
    pub max_failures: u32,
    /// Points awarded for each successful attempt.
    pub points_per_success: u32,
}

impl Default for GameRules {
    fn default() -> (r: Self)
        ensures
            r == (GameRules {
                starting_lives: 3,
                total_levels: 3,
                required_successes: 5,
                max_failures: 2,
                points_per_success: 100,
            }),
    {
        Self {
            starting_lives: 3,
            total_levels: 3,
            required_successes: 5,
            max_failures: 2,
            points_per_success: 100,
        }
    }
}

/// Why a set of [`GameRules`] was rejected.
#[derive(Debug, Clone, Copy, PartialEq, Eq, Structural)]
pub enum GameRulesError {
    /// `starting_lives` was zero.
    ZeroLives,
    /// `total_levels` was zero.
    ZeroLevels,
    /// `required_successes` was zero.
    ZeroRequiredSuccesses,
}

impl GameRules {
    /// The first degenerate field, if any.
    pub open spec fn problem(self) -> Option<GameRulesError> {
        if self.starting_lives == 0 {
            Some(GameRulesError::ZeroLives)
        } else if self.total_levels == 0 {
            Some(GameRulesError::ZeroLevels)
        } else if self.required_successes == 0 {
            Some(GameRulesError::ZeroRequiredSuccesses)
        } else {
            None
        }
    }

    /// Check the run is playable: at least one life, one level, and one success
    /// required per level. Reports the first degenerate field.
    pub fn validate(&self) -> (r: Result<(), GameRulesError>)
        ensures
            r is Ok <==> self.problem() is None,
            r matches Err(e) ==> self.problem() == Some(e),
    {
        if self.starting_lives == 0 {
            return Err(GameRulesError::ZeroLives);
        }
        if self.total_levels == 0 {
            return Err(GameRulesError::ZeroLevels);
        }
        if self.required_successes == 0 {
            return Err(GameRulesError::ZeroRequiredSuccesses);
        }
        Ok(())
    }
}

/// The rules for a single level: its clear/fail goal, the points a success is
/// worth, and how the player answers it.
#[derive(Debug, Clone, Copy, PartialEq, Eq, Structural)]
pub struct LevelSpec {
    /// Successes needed to clear the level.
    pub required_successes: u32,
    /// Failures tolerated before the level fails.
    pub max_failures: u32,
    /// Points awarded for each successful attempt on this level.
    pub points_per_success: u32,
    /// Per-question time limit in frames (`0` = untimed).
    pub time_limit_frames: u32,
    /// How the player answers this level.
    pub answer_mode: AnswerMode,
}

impl Default for LevelSpec {
    fn default() -> (s: Self)
        ensures
            s == (LevelSpec {
                required_successes: 5,
                max_failures: 2,
                points_per_success: 100,
                time_limit_frames: 0,
                answer_mode: AnswerMode::Typed,
            }),
    {
        Self {
            required_successes: 5,
            max_failures: 2,
            points_per_success: 100,
            time_limit_frames: 0,
            answer_mode: AnswerMode::Typed,
        }
    }
}

/// Why a [`LevelSpec`] was rejected as unplayable.
#[derive(Debug, Clone, Copy, PartialEq, Eq, Structural)]
pub enum LevelSpecError {
    /// `required_successes` was zero.
    ZeroRequiredSuccesses,
    /// The level's answer mode is itself unplayable.
    AnswerMode(AnswerModeError),
}

impl LevelSpec {
    /// The first problem with this level, if any.
    pub open spec fn problem(self) -> Option<LevelSpecError> {
        if self.required_successes == 0 {
            Some(LevelSpecError::ZeroRequiredSuccesses)
        } else if !self.answer_mode.playable() {
            Some(LevelSpecError::AnswerMode(AnswerModeError::TooFewOptions))
        } else {
            None
        }
    }

    /// A fresh goal for this level.
    pub open spec fn fresh_goal(self) -> LevelGoal {
        LevelGoal::fresh(self.required_successes, self.max_failures)
    }

    /// Check the level is playable: at least one success required, and a
    /// playable answer mode.
    pub fn validate(&self) -> (r: Result<(), LevelSpecError>)
        ensures
            r is Ok <==> self.problem() is None,
            r matches Err(e) ==> self.problem() == Some(e),
    {
        if self.required_successes == 0 {
            return Err(LevelSpecError::ZeroRequiredSuccesses);
        }
        match self.answer_mode.validate() {
            Ok(()) => Ok(()),
            Err(e) => Err(LevelSpecError::AnswerMode(e)),
        }
    }

    /// A fresh goal for this level.
    fn goal(&self) -> (g: LevelGoal)
        requires
            self.required_successes > 0,
        ensures
            g == self.fresh_goal(),
            g.wf(),
    {
        LevelGoal {
            required_successes: self.required_successes,
            max_failures: self.max_failures,
            successes: 0,
            failures: 0,
        }
    }
}

/// A whole playthrough as an ordered list of [`LevelSpec`]s plus the run-wide
/// starting lives.
#[derive(Debug, Clone, PartialEq, Eq)]
pub struct Campaign {
    /// Lives a run starts with (and refills to on reset).
    pub starting_lives: u32,
    /// The levels to clear, in order.
    pub levels: Vec<LevelSpec>,
}

impl Default for Campaign {
    fn default() -> (c: Self)
        ensures
            c.starting_lives == 3,
            c.levels@.len() == 3,
            forall|i: int| 0 <= i < 3 ==> #[trigger] c.levels@[i] == (LevelSpec {
                required_successes: 5,
                max_failures: 2,
                points_per_success: 100,
                time_limit_frames: 0,
                answer_mode: AnswerMode::Typed,
            }),
    {
        let mut levels: Vec<LevelSpec> = Vec::new();
        levels.push(LevelSpec::default());
        levels.push(LevelSpec::default());
        levels.push(LevelSpec::default());
        Self { starting_lives: 3, levels }
    }
}

/// Why a [`Campaign`] was rejected.
#[derive(Debug, Clone, Copy, PartialEq, Eq, Structural)]
pub enum CampaignError {
    /// `starting_lives` was zero.
    ZeroLives,
    /// No levels.
    NoLevels,
    /// A level was unplayable; `index` is its position in `levels`.
    Level { index: usize, source: LevelSpecError },
}

/// The first problem of a campaign with these lives and levels.
pub open spec fn campaign_problem(lives: u32, levels: Seq<LevelSpec>) -> Option<CampaignError> {
    if lives == 0 {
        Some(CampaignError::ZeroLives)
    } else if levels.len() == 0 {
        Some(CampaignError::NoLevels)
    } else if exists|i: int| 0 <= i < levels.len() && (#[trigger] levels[i]).problem() is Some {
        let i = choose|i: int|
            0 <= i < levels.len() && (#[trigger] levels[i]).problem() is Some && forall|j: int|
                0 <= j < i ==> (#[trigger] levels[j]).problem() is None;
        Some(CampaignError::Level { index: i as usize, source: levels[i].problem().unwrap() })
    } else {
        None
    }
}

impl Campaign {
    /// Check the campaign is playable: at least one life, at least one level,
    /// and every level playable. Reports the first problem found.
    pub fn validate(&self) -> (r: Result<(), CampaignError>)
        ensures
            r is Ok <==> campaign_problem(self.starting_lives, self.levels@) is None,
            r matches Err(e) ==> campaign_problem(self.starting_lives, self.levels@) == Some(e),
    {
        if self.starting_lives == 0 {
            return Err(CampaignError::ZeroLives);
        }
        if self.levels.len() == 0 {
            return Err(CampaignError::NoLevels);
        }
        let mut index: usize = 0;
        while index < self.levels.len()
            invariant
                index <= self.levels@.len(),
                self.starting_lives != 0,
                self.levels@.len() != 0,
                forall|j: int| 0 <= j < index ==> (#[trigger] self.levels@[j]).problem() is None,
            decreases self.levels@.len() - index,
        {
            match self.levels[index].validate() {
                Ok(()) => {},
                Err(source) => {
                    proof {
                        let levels = self.levels@;
                        assert(levels[index as int].problem() is Some);
                        assert(0 <= index < levels.len() && (#[trigger] levels[index as int]).problem() is Some
                            && forall|j: int| 0 <= j < index ==> (#[trigger] levels[j]).problem() is None);
                        let i = choose|i: int|
                            0 <= i < levels.len() && (#[trigger] levels[i]).problem() is Some
                                && forall|j: int| 0 <= j < i ==> (#[trigger] levels[j]).problem() is None;
                        if i < index {
                            assert(levels[i].problem() is None);
                        }
                        if i > index {
                            assert(levels[index as int].problem() is None);
                        }
                        assert(i == index);
                        assert(levels[index as int].problem() == Some(source));
                        assert(campaign_problem(self.starting_lives, levels) == Some(
                            CampaignError::Level { index, source },
                        ));
                    }
                    return Err(CampaignError::Level { index, source });
                },
            }
            index = index + 1;
        }
        Ok(())
    }
}

/// What one recorded attempt did to a [`GameRun`].
#[derive(Debug, Clone, Copy, PartialEq, Eq, Structural)]
pub struct AttemptOutcome {
    /// The current level's standing after the attempt.
    pub level_outcome: LevelOutcome,
    /// The run's standing after the attempt.
    pub run_phase: RunPhase,
    /// Consecutive successes after this attempt.
    pub streak: u32,
    /// Combo points awarded for the streak this attempt.
    pub streak_bonus: u32,
    /// Points awarded for a perfect clear this attempt.
    pub perfect_bonus: u32,
    /// Extra lives granted by 1UP thresholds this attempt crossed.
    pub one_ups: u32,
}

/// What a bonus [`GameRun::award`] did: the 1UPs the added points earned.
#[derive(Debug, Clone, Copy, PartialEq, Eq, Structural)]
pub struct AwardOutcome {
    /// Extra lives granted by 1UP thresholds this award crossed.
    pub one_ups: u32,
}

/// The run-long attempt tally: every success and failure recorded across the
/// whole playthrough, spanning levels.
#[derive(Debug, Clone, Copy, PartialEq, Eq, Structural)]
pub struct RunTally {
    /// Successful attempts recorded this playthrough.
    pub successes: u32,
    /// Failed attempts recorded this playthrough.
    pub failures: u32,
}

impl Default for RunTally {
    fn default() -> (t: Self)
        ensures
            t.successes == 0,
            t.failures == 0,
    {
        RunTally { successes: 0, failures: 0 }
    }
}

/// The abstract state of a [`GameRun`].
pub struct GameRunView {
    pub name: Seq<char>,
    pub run: Run,
    pub goal: LevelGoal,
    pub levels: Seq<LevelSpec>,
    pub perfect: u32,
    pub streak_rules: StreakRules,
    pub max_lives: u32,
    pub thresholds: Seq<u32>,
    pub streak: u32,
    pub cursor: int,
    pub tally: RunTally,
}

/// The 1UP cursor after the score reaches `score`: past every threshold from
/// `from` on that the score has reached.
pub open spec fn crossed(th: Seq<u32>, from: int, score: int) -> int
    decreases th.len() - from,
{
    if from < 0 || from >= th.len() {
        from
    } else if th[from] <= score {
        crossed(th, from + 1, score)
    } else {
        from
    }
}

/// Lives granted for `n` crossed thresholds to a pool of `lives` capped at
/// `cap`: one each while under the cap, the rest forfeited.
pub open spec fn lives_granted(lives: int, cap: int, n: int) -> int {
    if lives >= cap {
        0
    } else if n < cap - lives {
        n
    } else {
        cap - lives
    }
}

/// The run after adding `points`, and the lives that earned.
pub open spec fn after_award(v: GameRunView, points: int) -> (GameRunView, int) {
    let score = sat_add(v.run.score.0 as int, points);
    let c = crossed(v.thresholds, v.cursor, score);
    let g = lives_granted(v.run.lives.current as int, v.max_lives as int, c - v.cursor);
    (
        GameRunView {
            run: Run {
                score: Score(score as u32),
                lives: Lives { current: (v.run.lives.current + g) as u32, ..v.run.lives },
                ..v.run
            },
            cursor: c,
            ..v
        },
        g,
    )
}

/// The run after recording one attempt, and the outcome reported.
pub open spec fn attempt(v: GameRunView, success: bool) -> (GameRunView, AttemptOutcome) {
    if v.run.spec_phase() != RunPhase::Playing {
        (
            v,
            AttemptOutcome {
                level_outcome: v.goal.spec_outcome(),
                run_phase: v.run.spec_phase(),
                streak: v.streak,
                streak_bonus: 0,
                perfect_bonus: 0,
                one_ups: 0,
            },
        )
    } else {
        let cur = v.run.levels.current as int;
        let tally = if success {
            RunTally { successes: sat_add(v.tally.successes as int, 1) as u32, ..v.tally }
        } else {
            RunTally { failures: sat_add(v.tally.failures as int, 1) as u32, ..v.tally }
        };
        let streak: u32 = if success { sat_add(v.streak as int, 1) as u32 } else { 0 };
        let base: int = if success { v.levels[cur].points_per_success as int } else { 0 };
        let sb: int = if success { v.streak_rules.spec_bonus(streak) } else { 0 };
        let goal = v.goal.spec_record(success);
        let lo = goal.spec_outcome();
        let pb: int = if lo == LevelOutcome::Cleared && goal.failures == 0 {
            v.perfect as int
        } else {
            0
        };
        let total = sat_add(sat_add(base, sb), pb);
        let (w, ones) = after_award(GameRunView { tally, streak, goal, ..v }, total);
        let run = match lo {
            LevelOutcome::InProgress => w.run,
            LevelOutcome::Cleared => Run {
                levels: LevelProgress { current: (cur + 1) as usize, ..w.run.levels },
                ..w.run
            },
            LevelOutcome::Failed => Run {
                lives: Lives { current: (w.run.lives.current - 1) as u32, ..w.run.lives },
                ..w.run
            },
        };
        let phase = run.spec_phase();
        let goal2 = if phase == RunPhase::Playing && lo != LevelOutcome::InProgress {
            v.levels[run.levels.current as int].fresh_goal()
        } else {
            goal
        };
        (
            GameRunView { run, goal: goal2, ..w },
            AttemptOutcome {
                level_outcome: lo,
                run_phase: phase,
                streak,
                streak_bonus: sb as u32,
                perfect_bonus: pb as u32,
                one_ups: ones as u32,
            },
        )
    }
}

/// The invariant every reachable run state keeps.
pub open spec fn run_wf(v: GameRunView) -> bool {
    &&& v.levels.len() > 0
    &&& v.run.lives.starting > 0
    &&& forall|i: int| 0 <= i < v.levels.len() ==> (#[trigger] v.levels[i]).required_successes > 0
    &&& v.run.levels.total == v.levels.len()
    &&& v.run.levels.current <= v.levels.len()
    &&& thresholds_ok(v.thresholds)
    &&& 0 <= v.cursor <= v.thresholds.len()
    &&& v.goal.wf()
    &&& v.run.levels.current < v.levels.len() ==> {
        &&& v.goal.required_successes == v.levels[v.run.levels.current as int].required_successes
        &&& v.goal.max_failures == v.levels[v.run.levels.current as int].max_failures
    }
}

/// One playthrough of a game: a [`PlayerProfile`], the arcade [`Run`], and the
/// current level's [`LevelGoal`], sequenced from per-level [`LevelSpec`]s.
#[derive(Debug, Clone)]
pub struct GameRun {
    profile: PlayerProfile,
    run: Run,
    goal: LevelGoal,
    levels: Vec<LevelSpec>,
    scoring: ScoringRules,
    streak: u32,
    next_threshold: usize,
    tally: RunTally,
}

impl View for GameRun {
    type V = GameRunView;

    closed spec fn view(&self) -> GameRunView {
        GameRunView {
            name: self.profile.name@,
            run: self.run,
            goal: self.goal,
            levels: self.levels@,
            perfect: self.scoring.perfect_level_points,
            streak_rules: self.scoring.streak,
            max_lives: self.scoring.one_up.max_lives,
            thresholds: self.scoring.one_up.thresholds@,
            streak: self.streak,
            cursor: self.next_threshold as int,
            tally: self.tally,
        }
    }
}

/// A freshly started run over `levels` with `lives` lives.
pub open spec fn fresh_view(name: Seq<char>, lives: u32, levels: Seq<LevelSpec>) -> GameRunView {
    GameRunView {
        name,
        run: Run {
            score: Score(0),
            lives: Lives { current: lives, starting: lives },
            levels: LevelProgress { total: levels.len() as usize, current: 0 },
        },
        goal: levels[0].fresh_goal(),
        levels,
        perfect: 0,
        streak_rules: StreakRules { bonus_per_step: 0 },
        max_lives: u32::MAX,
        thresholds: Seq::empty(),
        streak: 0,
        cursor: 0,
        tally: RunTally { successes: 0, failures: 0 },
    }
}

/// `crossed` never moves the cursor backwards nor past the end.
proof fn lemma_crossed_bounds(th: Seq<u32>, from: int, score: int)
    requires
        0 <= from <= th.len(),
    ensures
        from <= crossed(th, from, score) <= th.len(),
        crossed(th, from, score) < th.len() ==> th[crossed(th, from, score)] > score,
        forall|i: int| from <= i < crossed(th, from, score) ==> #[trigger] th[i] <= score,
    decreases th.len() - from,
{
    if from < th.len() && th[from] <= score {
        lemma_crossed_bounds(th, from + 1, score);
    }
}

impl GameRun {
    /// Assemble a run from validated parts.
    fn assemble(lives: u32, levels: Vec<LevelSpec>) -> (g: Self)
        requires
            lives > 0,
            levels@.len() > 0,
            forall|i: int| 0 <= i < levels@.len() ==> (#[trigger] levels@[i]).required_successes > 0,
        ensures
            g@ == fresh_view(Seq::empty(), lives, levels@),
            run_wf(g@),
    {
        let goal = levels[0].goal();
        let run = Run::new(lives, levels.len());
        let g = Self {
            profile: PlayerProfile::default(),
            run,
            goal,
            levels,
            scoring: ScoringRules::default(),
            streak: 0,
            next_threshold: 0,
            tally: RunTally::default(),
        };
        proof {
            assert(g@.thresholds =~= Seq::<u32>::empty());
            assert(g@.name =~= Seq::<char>::empty());
        }
        g
    }

    /// Start a playthrough under uniform `rules`: every level shares one goal,
    /// reward, and typed input. Fails exactly when `rules` are unplayable.
    pub fn new(rules: &GameRules) -> (r: Result<Self, GameRulesError>)
        ensures
            rules.problem() is Some ==> r == Err::<Self, GameRulesError>(rules.problem().unwrap()),
            rules.problem() is None ==> (r matches Ok(g) && run_wf(g@) && g@ == fresh_view(
                Seq::empty(),
                rules.starting_lives,
                Seq::new(
                    rules.total_levels as nat,
                    |i: int|
                        LevelSpec {
                            required_successes: rules.required_successes,
                            max_failures: rules.max_failures,
                            points_per_success: rules.points_per_success,
                            time_limit_frames: 0,
                            answer_mode: AnswerMode::Typed,
                        },
                ),
            )),
    {
        match rules.validate() {
            Err(e) => {
                return Err(e);
            },
            Ok(()) => {},
        }
        let spec = LevelSpec {
            required_successes: rules.required_successes,
            max_failures: rules.max_failures,
            points_per_success: rules.points_per_success,
            time_limit_frames: 0,
            answer_mode: AnswerMode::Typed,
        };
        let mut levels: Vec<LevelSpec> = Vec::new();
        while levels.len() < rules.total_levels
            invariant
                levels@.len() <= rules.total_levels,
                forall|i: int| 0 <= i < levels@.len() ==> #[trigger] levels@[i] == spec,
            decreases rules.total_levels - levels@.len(),
        {
            levels.push(spec);
        }
        proof {
            assert(levels@ =~= Seq::new(rules.total_levels as nat, |i: int| spec));
        }
        Ok(Self::assemble(rules.starting_lives, levels))
    }

    /// Start a playthrough from a per-level [`Campaign`]. Fails exactly when
    /// the campaign is unplayable.
    pub fn from_campaign(campaign: &Campaign) -> (r: Result<Self, CampaignError>)
        ensures
            campaign_problem(campaign.starting_lives, campaign.levels@) is Some ==> r == Err::<
                Self,
                CampaignError,
            >(campaign_problem(campaign.starting_lives, campaign.levels@).unwrap()),
            campaign_problem(campaign.starting_lives, campaign.levels@) is None ==> (r matches Ok(g)
                && run_wf(g@) && g@ == fresh_view(
                Seq::empty(),
                campaign.starting_lives,
                campaign.levels@,
            )),
    {
        match campaign.validate() {
            Err(e) => {
                return Err(e);
            },
            Ok(()) => {},
        }
        let mut levels: Vec<LevelSpec> = Vec::new();
        let n = campaign.levels.len();
        while levels.len() < n
            invariant
                n == campaign.levels@.len(),
                levels@.len() <= n,
                forall|i: int| 0 <= i < levels@.len() ==> #[trigger] levels@[i] == campaign.levels@[i],
            decreases n - levels@.len(),
        {
            let i = levels.len();
            levels.push(campaign.levels[i]);
        }
        proof {
            assert(levels@ =~= campaign.levels@);
            assert forall|i: int| 0 <= i < levels@.len() implies (#[trigger] levels@[i]).required_successes > 0 by {
                if levels@[i].problem() is Some {
                    assert(exists|i: int| 0 <= i < campaign.levels@.len() && (#[trigger] campaign.levels@[i]).problem() is Some);
                }
            }
        }
        Ok(Self::assemble(campaign.starting_lives, levels))
    }

    /// Set the scoring policy, validating it against this run. Fails with the
    /// first malformed threshold, or when the lives cap is below this run's
    /// starting lives; the run is unchanged on failure.
    pub fn set_scoring(&mut self, scoring: ScoringRules) -> (r: Result<(), ScoringRulesError>)
        requires
            run_wf(old(self)@),
        ensures
            run_wf(final(self)@),
            r is Ok <==> (thresholds_ok(scoring.one_up.thresholds@) && scoring.one_up.max_lives
                >= old(self)@.run.lives.starting),
            r is Err ==> final(self)@ == old(self)@,
            !thresholds_ok(scoring.one_up.thresholds@) ==> (r matches Err(e) && first_bad(
                scoring.one_up.thresholds@,
            ) matches Some((_, e2)) && e == e2),
            thresholds_ok(scoring.one_up.thresholds@) && scoring.one_up.max_lives < old(
                self,
            )@.run.lives.starting ==> r == Err::<(), ScoringRulesError>(
                ScoringRulesError::MaxLivesBelowStart {
                    max_lives: scoring.one_up.max_lives,
                    starting_lives: old(self)@.run.lives.starting,
                },
            ),
            r is Ok ==> final(self)@ == (GameRunView {
                perfect: scoring.perfect_level_points,
                streak_rules: scoring.streak,
                max_lives: scoring.one_up.max_lives,
                thresholds: scoring.one_up.thresholds@,
                cursor: 0,
                ..old(self)@
            }),
    {
        match scoring.validate() {
            Err(e) => {
                return Err(e);
            },
            Ok(()) => {},
        }
        let starting_lives = self.run.lives().starting();
        if scoring.one_up.max_lives < starting_lives {
            return Err(
                ScoringRulesError::MaxLivesBelowStart {
                    max_lives: scoring.one_up.max_lives,
                    starting_lives,
                },
            );
        }
        self.scoring = scoring;
        self.next_threshold = 0;
        Ok(())
    }

    /// Add `points` to the score, then grant a 1UP for each not-yet-reached
    /// threshold the new total has crossed, capped at `max_lives`.
    fn apply_award(&mut self, points: u32) -> (granted: u32)
        requires
            0 <= old(self)@.cursor <= old(self)@.thresholds.len(),
        ensures
            (final(self)@, granted as int) == after_award(old(self)@, points as int),
            0 <= final(self)@.cursor <= final(self)@.thresholds.len(),
    {
        let ghost v0 = self@;
        self.run.award(points);
        let score = self.run.score().points();
        let ghost c = crossed(v0.thresholds, v0.cursor, score as int);
        proof {
            lemma_crossed_bounds(v0.thresholds, v0.cursor, score as int);
        }
        let mut granted: u32 = 0;
        while self.next_threshold < self.scoring.one_up.thresholds.len()
            && score >= self.scoring.one_up.thresholds[self.next_threshold]
            invariant
                v0.cursor <= self.next_threshold <= c <= v0.thresholds.len(),
                crossed(v0.thresholds, self.next_threshold as int, score as int) == c,
                c < v0.thresholds.len() ==> v0.thresholds[c] > score,
                forall|i: int| v0.cursor <= i < c ==> #[trigger] v0.thresholds[i] <= score,
                granted == lives_granted(
                    v0.run.lives.current as int,
                    v0.max_lives as int,
                    self.next_threshold - v0.cursor,
                ),
                self.run.lives.current == v0.run.lives.current + granted,
                self.run.lives.starting == v0.run.lives.starting,
                self.run.score.0 == score,
                score == sat_add(v0.run.score.0 as int, points as int),
                self.run.levels == v0.run.levels,
                self@ == (GameRunView { run: self.run, cursor: self.next_threshold as int, ..v0 }),
            decreases v0.thresholds.len() - self.next_threshold,
        {
            self.next_threshold += 1;
            if self.run.lives().count() < self.scoring.one_up.max_lives {
                self.run.one_up();
                granted += 1;
            }
        }
        proof {
            if self.next_threshold < v0.thresholds.len() {
                assert(self.next_threshold == c) by {
                    if self.next_threshold < c {
                        assert(v0.thresholds[self.next_threshold as int] <= score);
                    }
                }
            }
        }
        granted
    }

    /// The player profile.
    pub fn profile(&self) -> (p: &PlayerProfile)
        ensures
            p.name@ == self@.name,
    {
        &self.profile
    }

    /// Set the player's name (e.g. after a name-entry screen).
    pub fn set_player_name(&mut self, name: &str)
        ensures
            final(self)@ == (GameRunView { name: name@, ..old(self)@ }),
    {
        self.profile.set_name(name);
    }

    /// The arcade run (score, lives, level progress, phase).
    pub fn run(&self) -> (r: Run)
        ensures
            r == self@.run,
    {
        self.run
    }

    /// The current level's goal.
    pub fn goal(&self) -> (g: LevelGoal)
        ensures
            g == self@.goal,
    {
        self.goal
    }

    /// The current combo length.
    pub fn streak(&self) -> (s: u32)
        ensures
            s == self@.streak,
    {
        self.streak
    }

    /// The run-long attempt tally.
    pub fn tally(&self) -> (t: RunTally)
        ensures
            t == self@.tally,
    {
        self.tally
    }

    /// The ending title `rules` awards this run as it stands: the first rank
    /// whose requirements the run's facts (won, run-long failures, points)
    /// meet, or `None`.
    pub fn rank<'a>(&self, rules: &'a RankRules) -> (r: Option<&'a str>)
        ensures
            ({
                let won = self@.run.spec_phase() == RunPhase::Won;
                &&& r is None <==> forall|i: int| 0 <= i < rules.rules@.len() ==> !(#[trigger] rules.rules@[i]).earned_by(won, self@.tally, self@.run.score.0)
                &&& r matches Some(t) ==> exists|i: int| first_earned(rules.rules@, i, won, self@.tally, self@.run.score.0)
                    && t@ == #[trigger] rules.rules@[i].title@
            }),
    {
        rules.rank(self.phase() == RunPhase::Won, self.tally, self.run.score().points())
    }

    /// Where the run stands right now.
    pub fn phase(&self) -> (p: RunPhase)
        ensures
            p == self@.run.spec_phase(),
    {
        self.run.phase()
    }

    /// Record one attempt's outcome and sequence the run: award points on a
    /// success, feed the level goal, clear or fail the run on the goal's
    /// verdict, and re-arm a fresh goal when a level ends but the run
    /// continues. Once the run is over this is inert.
    pub fn record_attempt(&mut self, success: bool) -> (out: AttemptOutcome)
        requires
            run_wf(old(self)@),
            old(self)@.run.spec_phase() == RunPhase::Playing && !success && old(
                self,
            )@.goal.spec_outcome() == LevelOutcome::InProgress ==> old(self)@.goal.failures
                < u32::MAX,
        ensures
            run_wf(final(self)@),
            (final(self)@, out) == attempt(old(self)@, success),
    {
        let ghost v0 = self@;
        if self.run.phase() != RunPhase::Playing {
            return AttemptOutcome {
                level_outcome: self.goal.outcome(),
                run_phase: self.run.phase(),
                streak: self.streak,
                streak_bonus: 0,
                perfect_bonus: 0,
                one_ups: 0,
            };
        }
        let current = self.run.levels().current();
        if success {
            self.tally.successes = self.tally.successes.saturating_add(1);
        } else {
            self.tally.failures = self.tally.failures.saturating_add(1);
        }
        self.streak = if success {
            self.streak.saturating_add(1)
        } else {
            0
        };
        let base = if success {
            self.levels[current].points_per_success
        } else {
            0
        };
        let streak_bonus = if success {
            self.scoring.streak.bonus(self.streak)
        } else {
            0
        };
        let level_outcome = self.goal.record(success);
        let perfect_bonus = if level_outcome == LevelOutcome::Cleared && self.goal.failures() == 0 {
            self.scoring.perfect_level_points
        } else {
            0
        };
        let total = base.saturating_add(streak_bonus).saturating_add(perfect_bonus);
        let ghost v1 = self@;
        let one_ups = self.apply_award(total);
        let ghost v2 = self@;
        let run_phase = match level_outcome {
            LevelOutcome::InProgress => self.run.phase(),
            LevelOutcome::Cleared => self.run.clear_level(),
            LevelOutcome::Failed => self.run.fail(),
        };
        if run_phase == RunPhase::Playing && level_outcome != LevelOutcome::InProgress {
            self.goal = self.current_goal();
        }
        let out = AttemptOutcome {
            level_outcome,
            run_phase,
            streak: self.streak,
            streak_bonus,
            perfect_bonus,
            one_ups,
        };
        proof {
            let (w, ones) = after_award(v1, total as int);
            assert(v2 == w);
            let v = self@;
            assert(v.levels.len() > 0);
            assert(v.run.levels.total == v.levels.len());
            assert(v.run.levels.current <= v.levels.len());
            assert(thresholds_ok(v.thresholds));
            assert(0 <= v.cursor <= v.thresholds.len());
            assert(v.goal.wf());
            assert(v.run.levels.current < v.levels.len() ==> {
                &&& v.goal.required_successes == v.levels[v.run.levels.current as int].required_successes
                &&& v.goal.max_failures == v.levels[v.run.levels.current as int].max_failures
            });
        }
        out
    }

    /// Award bonus points a caller computes itself. No run sequencing: it adds
    /// the points and checks 1UP thresholds against the new total.
    pub fn award(&mut self, points: u32) -> (out: AwardOutcome)
        requires
            run_wf(old(self)@),
        ensures
            run_wf(final(self)@),
            (final(self)@, out.one_ups as int) == after_award(old(self)@, points as int),
    {
        let one_ups = self.apply_award(points);
        AwardOutcome { one_ups }
    }

    /// The spec of the level currently in play; once the run is won this is
    /// the final level's.
    pub fn current_level_spec(&self) -> (s: LevelSpec)
        requires
            run_wf(self@),
        ensures
            s == self@.levels[if self@.run.levels.current < self@.levels.len() {
                self@.run.levels.current as int
            } else {
                self@.levels.len() - 1
            }],
    {
        let last = self.levels.len() - 1;
        let current = self.run.levels().current();
        self.levels[if current < last {
            current
        } else {
            last
        }]
    }

    /// Restart for a fresh playthrough: zero score, refilled lives, first
    /// level and its goal; the combo, 1UP progress, and tally reset too. The
    /// scoring policy and the player profile are left intact.
    pub fn reset(&mut self)
        requires
            run_wf(old(self)@),
        ensures
            run_wf(final(self)@),
            final(self)@ == reset_view(old(self)@),
    {
        self.run.reset();
        self.goal = self.current_goal();
        self.streak = 0;
        self.next_threshold = 0;
        self.tally = RunTally::default();
    }

    /// A fresh goal for the level now current.
    fn current_goal(&self) -> (g: LevelGoal)
        requires
            self.run.levels.current < self.levels@.len(),
            forall|i: int| 0 <= i < self.levels@.len() ==> (#[trigger] self.levels@[i]).required_successes > 0,
        ensures
            g == self.levels@[self.run.levels.current as int].fresh_goal(),
            g.wf(),
    {
        self.levels[self.run.levels().current()].goal()
    }
}


/// Law: a finished run (won or game over) ignores further attempts — the state
/// is unchanged and nothing is scored.
pub proof fn law_finished_run_is_inert(v: GameRunView, success: bool)
    requires
        v.run.spec_phase() != RunPhase::Playing,
    ensures
        attempt(v, success).0 == v,
        attempt(v, success).1.streak_bonus == 0,
        attempt(v, success).1.perfect_bonus == 0,
        attempt(v, success).1.one_ups == 0,
{
}

/// Law: while playing, every attempt is tallied exactly once — as a success or
/// as a failure — and the combo grows on a success and breaks on a miss.
pub proof fn law_attempts_are_tallied_and_streaked(v: GameRunView, success: bool)
    requires
        run_wf(v),
        v.run.spec_phase() == RunPhase::Playing,
        v.tally.successes < u32::MAX,
        v.tally.failures < u32::MAX,
        v.streak < u32::MAX,
    ensures
        ({
            let (w, out) = attempt(v, success);
            &&& success ==> w.tally == (RunTally { successes: (v.tally.successes + 1) as u32, ..v.tally })
            &&& !success ==> w.tally == (RunTally { failures: (v.tally.failures + 1) as u32, ..v.tally })
            &&& out.streak == w.streak
            &&& w.streak == (if success { v.streak + 1 } else { 0 })
        }),
{
}

/// Law: an attempt never lowers the score, never moves the 1UP cursor
/// backwards (so each threshold fires at most once per playthrough), and the
/// lives it grants never lift the pool past the cap it was under.
pub proof fn law_attempt_is_monotone(v: GameRunView, success: bool)
    requires
        run_wf(v),
    ensures
        ({
            let (w, out) = attempt(v, success);
            &&& w.run.score.0 >= v.run.score.0
            &&& w.cursor >= v.cursor
            &&& v.run.lives.current <= v.max_lives ==> w.run.lives.current <= v.max_lives
            &&& w.levels == v.levels
            &&& w.thresholds == v.thresholds
        }),
{
    if v.run.spec_phase() == RunPhase::Playing {
        let cur = v.run.levels.current as int;
        let tally = if success {
            RunTally { successes: sat_add(v.tally.successes as int, 1) as u32, ..v.tally }
        } else {
            RunTally { failures: sat_add(v.tally.failures as int, 1) as u32, ..v.tally }
        };
        let streak: u32 = if success { sat_add(v.streak as int, 1) as u32 } else { 0 };
        let base: int = if success { v.levels[cur].points_per_success as int } else { 0 };
        let sb: int = if success { v.streak_rules.spec_bonus(streak) } else { 0 };
        let goal = v.goal.spec_record(success);
        let lo = goal.spec_outcome();
        let pb: int = if lo == LevelOutcome::Cleared && goal.failures == 0 {
            v.perfect as int
        } else {
            0
        };
        let total = sat_add(sat_add(base, sb), pb);
        let u = GameRunView { tally, streak, goal, ..v };
        lemma_award_is_monotone(u, total);
    }
}

/// Law: an award never lowers the score or the cursor, and grants lives only
/// up to the cap.
pub proof fn lemma_award_is_monotone(v: GameRunView, points: int)
    requires
        0 <= v.cursor <= v.thresholds.len(),
        points >= 0,
    ensures
        after_award(v, points).0.run.score.0 >= v.run.score.0,
        after_award(v, points).0.cursor >= v.cursor,
        v.run.lives.current <= v.max_lives ==> after_award(v, points).0.run.lives.current
            <= v.max_lives,
        after_award(v, points).1 <= after_award(v, points).0.cursor - v.cursor,
{
    let score = sat_add(v.run.score.0 as int, points);
    lemma_crossed_bounds(v.thresholds, v.cursor, score);
}

/// Law: a threshold fires once the score reaches it — after an award the
/// cursor has passed every threshold at or below the new score.
pub proof fn law_reached_thresholds_fire(v: GameRunView, points: int)
    requires
        0 <= v.cursor <= v.thresholds.len(),
        thresholds_ok(v.thresholds),
        points >= 0,
    ensures
        ({
            let w = after_award(v, points).0;
            forall|i: int| w.cursor <= i < v.thresholds.len() ==> #[trigger] v.thresholds[i]
                > w.run.score.0
        }),
{
    let score = sat_add(v.run.score.0 as int, points);
    lemma_crossed_bounds(v.thresholds, v.cursor, score);
    let c = crossed(v.thresholds, v.cursor, score);
    assert forall|i: int| c <= i < v.thresholds.len() implies #[trigger] v.thresholds[i] > score by {
        if c < i {
            assert(v.thresholds[c] < v.thresholds[i]);
        }
    }
}

/// The run a restart leaves: zero score, a full pool of lives, back at the
/// first level with its goal fresh, no combo, the 1UP cursor rewound and the
/// tally cleared; the player, the levels and the scoring rules stay.
pub open spec fn reset_view(v: GameRunView) -> GameRunView {
    GameRunView {
        run: Run {
            score: Score(0),
            lives: Lives { current: v.run.lives.starting, starting: v.run.lives.starting },
            levels: LevelProgress { total: v.run.levels.total, current: 0 },
        },
        goal: v.levels[0].fresh_goal(),
        streak: 0,
        cursor: 0,
        tally: RunTally { successes: 0, failures: 0 },
        ..v
    }
}

/// Law: a restart always plays again, however the run ended: the pool it
/// refills is never empty and the first level is never cleared.
pub proof fn law_a_reset_run_is_playing(v: GameRunView)
    requires
        run_wf(v),
    ensures
        reset_view(v).run.spec_phase() == RunPhase::Playing,
{
}

/// Law: the perfect-clear bonus is paid exactly on the attempt that clears a
/// level whose own goal recorded no failure, whatever was missed on earlier
/// levels (the run's tally plays no part), and it is scored with the rest of
/// the attempt's points: the score gains the success's points, the combo
/// bonus and the perfect bonus, saturating at `u32::MAX`.
pub proof fn law_a_clean_clear_pays_the_perfect_bonus(v: GameRunView, success: bool)
    requires
        run_wf(v),
        v.run.spec_phase() == RunPhase::Playing,
    ensures
        ({
            let (w, out) = attempt(v, success);
            let cur = v.run.levels.current as int;
            let gained = (if success { v.levels[cur].points_per_success as int } else { 0 })
                + out.streak_bonus + out.perfect_bonus;
            &&& out.perfect_bonus == (if out.level_outcome == LevelOutcome::Cleared
                && v.goal.spec_record(success).failures == 0 {
                v.perfect
            } else {
                0
            })
            &&& success && v.goal.spec_outcome() == LevelOutcome::InProgress ==> (
            out.perfect_bonus != 0 <==> v.perfect != 0 && v.goal.failures == 0 && v.goal.successes
                + 1 >= v.goal.required_successes)
            &&& !success ==> out.perfect_bonus == 0 || v.goal.spec_outcome()
                == LevelOutcome::Cleared
            &&& w.run.score.0 == (if v.run.score.0 + gained > u32::MAX {
                u32::MAX as int
            } else {
                v.run.score.0 + gained
            })
        }),
{
}

} // verus!
