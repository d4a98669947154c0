use ratgames::session::{
    AttemptOutcome, AwardOutcome, Campaign, CampaignError, ContinueRules, GameRules, GameRulesError,
    GameRun, HighScoreEntry, HighScoreLayout, HighScores, LevelGoal, LevelGoalError, LevelOutcome,
    LevelProgress, LevelSpec, LevelSpecError, Lives, OneUpRules, PlacedRow, PlayerProfile, RankRule,
    RankRules, RankRulesError, Run, RunPhase, RunTally, Score, ScoringRules, ScoringRulesError,
    StreakRules,
};

#[test]
fn score_adds_and_resets_and_saturates() {
    let mut s = Score::new();
    assert_eq!(s.points(), 0);
    s.add(10);
    s.add(5);
    assert_eq!(s.points(), 15);
    s.add(u32::MAX); // saturates, no overflow
    assert_eq!(s.points(), u32::MAX);
    s.reset();
    assert_eq!(s.points(), 0);
}

#[test]
fn level_progress_advances_to_completion() {
    let mut p = LevelProgress::new(2);
    assert_eq!(p.current(), 0);
    assert_eq!(p.remaining(), 2);
    assert!(!p.is_complete());

    assert!(p.advance()); // -> level 1 of 2 (still a level to play)
    assert_eq!(p.current(), 1);
    assert_eq!(p.remaining(), 1);

    assert!(!p.advance()); // -> complete, no further level
    assert!(p.is_complete());
    assert_eq!(p.remaining(), 0);

    assert!(!p.advance()); // no-op once complete
    assert_eq!(p.current(), 2);
}

#[test]
fn zero_levels_is_complete_immediately() {
    let mut p = LevelProgress::new(0);
    assert!(p.is_complete());
    assert!(!p.advance());
}
