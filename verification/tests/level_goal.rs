use ratgames::session::{
    AttemptOutcome, AwardOutcome, Campaign, CampaignError, ContinueRules, GameRules, GameRulesError,
    GameRun, HighScoreEntry, HighScoreLayout, HighScores, LevelGoal, LevelGoalError, LevelOutcome,
    LevelProgress, LevelSpec, LevelSpecError, Lives, OneUpRules, PlacedRow, PlayerProfile, RankRule,
    RankRules, RankRulesError, Run, RunPhase, RunTally, Score, ScoringRules, ScoringRulesError,
    StreakRules,
};

#[test]
fn new_rejects_zero_required_successes() {
    assert_eq!(LevelGoal::new(0, 3), Err(LevelGoalError::ZeroRequired));
}

#[test]
fn new_accepts_zero_max_failures() {
    // Zero tolerated failures is a valid (strict) goal, not an error.
    let goal = LevelGoal::new(1, 0).unwrap();
    assert_eq!(goal.max_failures(), 0);
    assert_eq!(goal.outcome(), LevelOutcome::InProgress);
}

#[test]
fn clears_on_reaching_required_successes() {
    let mut goal = LevelGoal::new(3, 2).unwrap();
    assert_eq!(goal.record(true), LevelOutcome::InProgress);
    assert_eq!(goal.record(true), LevelOutcome::InProgress);
    assert_eq!(goal.record(true), LevelOutcome::Cleared);
    assert_eq!(goal.successes(), 3);
}

#[test]
fn fails_once_failures_exceed_max() {
    let mut goal = LevelGoal::new(5, 1).unwrap();
    assert_eq!(goal.record(false), LevelOutcome::InProgress); // 1 failure == max, still ok
    assert_eq!(goal.record(false), LevelOutcome::Failed); // 2 > 1
    assert_eq!(goal.failures(), 2);
}

#[test]
fn zero_max_failures_fails_on_first_failure() {
    let mut goal = LevelGoal::new(3, 0).unwrap();
    assert_eq!(goal.record(false), LevelOutcome::Failed);
}

#[test]
fn interleaved_successes_and_failures_can_still_clear() {
    let mut goal = LevelGoal::new(3, 2).unwrap();
    assert_eq!(goal.record(true), LevelOutcome::InProgress); // s1
    assert_eq!(goal.record(false), LevelOutcome::InProgress); // f1
    assert_eq!(goal.record(true), LevelOutcome::InProgress); // s2
    assert_eq!(goal.record(false), LevelOutcome::InProgress); // f2 (== max, ok)
    assert_eq!(goal.record(true), LevelOutcome::Cleared); // s3
}

#[test]
fn cleared_is_sticky_and_freezes_counts() {
    let mut goal = LevelGoal::new(1, 5).unwrap();
    assert_eq!(goal.record(true), LevelOutcome::Cleared);
    // Further records are ignored once terminal.
    assert_eq!(goal.record(false), LevelOutcome::Cleared);
    assert_eq!(goal.record(true), LevelOutcome::Cleared);
    assert_eq!(goal.successes(), 1);
    assert_eq!(goal.failures(), 0);
}

#[test]
fn failed_is_sticky_and_freezes_counts() {
    let mut goal = LevelGoal::new(3, 0).unwrap();
    assert_eq!(goal.record(false), LevelOutcome::Failed);
    assert_eq!(goal.record(true), LevelOutcome::Failed);
    assert_eq!(goal.successes(), 0);
    assert_eq!(goal.failures(), 1);
}

#[test]
fn accessors_report_thresholds_and_counts() {
    let goal = LevelGoal::new(4, 2).unwrap();
    assert_eq!(goal.required_successes(), 4);
    assert_eq!(goal.max_failures(), 2);
    assert_eq!(goal.successes(), 0);
    assert_eq!(goal.failures(), 0);
    assert_eq!(goal.outcome(), LevelOutcome::InProgress);
}
