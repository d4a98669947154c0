use ratgames::session::{
    AttemptOutcome, AwardOutcome, Campaign, CampaignError, ContinueRules, GameRules, GameRulesError,
    GameRun, HighScoreEntry, HighScoreLayout, HighScores, LevelGoal, LevelGoalError, LevelOutcome,
    LevelProgress, LevelSpec, LevelSpecError, Lives, OneUpRules, PlacedRow, PlayerProfile, RankRule,
    RankRules, RankRulesError, Run, RunPhase, RunTally, Score, ScoringRules, ScoringRulesError,
    StreakRules,
};

#[test]
fn profile_carries_and_updates_a_name() {
    let mut p = PlayerProfile::new("Ada");
    assert_eq!(p.name(), "Ada");
    p.set_name("Grace");
    assert_eq!(p.name(), "Grace");
}

#[test]
fn default_profile_is_nameless() {
    assert_eq!(PlayerProfile::default().name(), "");
}
