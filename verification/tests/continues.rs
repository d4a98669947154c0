use ratgames::session::{
    AttemptOutcome, AwardOutcome, Campaign, CampaignError, ContinueRules, GameRules, GameRulesError,
    GameRun, HighScoreEntry, HighScoreLayout, HighScores, LevelGoal, LevelGoalError, LevelOutcome,
    LevelProgress, LevelSpec, LevelSpecError, Lives, OneUpRules, PlacedRow, PlayerProfile, RankRule,
    RankRules, RankRulesError, Run, RunPhase, RunTally, Score, ScoringRules, ScoringRulesError,
    StreakRules,
};

#[test]
fn default_offers_no_continues() {
    let rules = ContinueRules::default();
    assert_eq!(rules.allowed, 0);
    assert!(!rules.keep_score);
}
