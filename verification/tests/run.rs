use ratgames::session::{
    AttemptOutcome, AwardOutcome, Campaign, CampaignError, ContinueRules, GameRules, GameRulesError,
    GameRun, HighScoreEntry, HighScoreLayout, HighScores, LevelGoal, LevelGoalError, LevelOutcome,
    LevelProgress, LevelSpec, LevelSpecError, Lives, OneUpRules, PlacedRow, PlayerProfile, RankRule,
    RankRules, RankRulesError, Run, RunPhase, RunTally, Score, ScoringRules, ScoringRulesError,
    StreakRules,
};

#[test]
fn lives_lose_down_to_game_over() {
    let mut lives = Lives::new(3);
    assert_eq!(lives.count(), 3);
    assert!(!lives.is_game_over());
    assert!(lives.lose()); // -> 2, run continues
    assert!(lives.lose()); // -> 1
    assert!(!lives.lose()); // -> 0, game over
    assert!(lives.is_game_over());
    assert!(!lives.lose()); // saturates at zero
    assert_eq!(lives.count(), 0);
}

#[test]
fn a_one_up_revives_a_dead_pool_and_reset_refills() {
    let mut lives = Lives::new(1);
    assert!(!lives.lose()); // -> 0
    assert!(lives.is_game_over());
    lives.gain(); // 1-up revives
    assert_eq!(lives.count(), 1);
    assert!(!lives.is_game_over());
    lives.gain(); // -> 2, can exceed the starting pool
    assert_eq!(lives.count(), 2);
    lives.reset();
    assert_eq!(lives.count(), 1);
    assert_eq!(lives.starting(), 1);
}

#[test]
fn zero_lives_is_game_over_immediately() {
    assert!(Lives::new(0).is_game_over());
}

#[test]
fn run_plays_through_levels_to_a_win() {
    let mut run = Run::new(3, 2);
    assert_eq!(run.phase(), RunPhase::Playing);
    assert_eq!(run.clear_level(), RunPhase::Playing); // -> level 1 of 2
    assert_eq!(run.levels().current(), 1);
    assert_eq!(run.clear_level(), RunPhase::Won); // last level cleared
    assert!(run.levels().is_complete());
}

#[test]
fn run_reaches_game_over_when_lives_run_out() {
    let mut run = Run::new(1, 3);
    assert_eq!(run.fail(), RunPhase::GameOver);
    assert!(run.lives().is_game_over());
    // A 1-up continues the run from where it left off.
    run.one_up();
    assert_eq!(run.phase(), RunPhase::Playing);
}

#[test]
fn run_awards_points_and_resets() {
    let mut run = Run::new(3, 2);
    run.award(10);
    run.award(5);
    run.fail();
    run.clear_level();
    assert_eq!(run.score().points(), 15);

    run.reset();
    assert_eq!(run.score().points(), 0);
    assert_eq!(run.lives().count(), 3);
    assert_eq!(run.levels().current(), 0);
    assert_eq!(run.levels().total(), 2);
}

#[test]
fn game_over_takes_precedence_over_an_unfinished_run() {
    // Out of lives on the final level, before clearing it: game over, not won.
    let mut run = Run::new(1, 1);
    assert_eq!(run.fail(), RunPhase::GameOver);
}
