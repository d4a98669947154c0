use ratgames::session::{
    AttemptOutcome, AwardOutcome, Campaign, CampaignError, ContinueRules, GameRules, GameRulesError,
    GameRun, HighScoreEntry, HighScoreLayout, HighScores, LevelGoal, LevelGoalError, LevelOutcome,
    LevelProgress, LevelSpec, LevelSpecError, Lives, OneUpRules, PlacedRow, PlayerProfile, RankRule,
    RankRules, RankRulesError, Run, RunPhase, RunTally, Score, ScoringRules, ScoringRulesError,
    StreakRules,
};

#[test]
fn scoring_default_is_a_no_op_policy() {
    let rules = ScoringRules::default();
    assert_eq!(rules.perfect_level_points, 0);
    assert_eq!(rules.streak.bonus_per_step, 0);
    assert!(rules.one_up.thresholds.is_empty());
    assert_eq!(rules.one_up.max_lives, u32::MAX);
}

#[test]
fn streak_bonus_escalates_from_the_second_in_a_row() {
    let streak = StreakRules { bonus_per_step: 25 };
    assert_eq!(streak.bonus(0), 0); // no streak
    assert_eq!(streak.bonus(1), 0); // first correct — no combo yet
    assert_eq!(streak.bonus(2), 25);
    assert_eq!(streak.bonus(3), 50);
    assert_eq!(streak.bonus(10), 225);
}

#[test]
fn streak_bonus_of_zero_never_pays() {
    let streak = StreakRules::default();
    assert_eq!(streak.bonus(100), 0);
}

#[test]
fn streak_bonus_saturates_instead_of_overflowing() {
    let streak = StreakRules {
        bonus_per_step: u32::MAX,
    };
    assert_eq!(streak.bonus(u32::MAX), u32::MAX);
}

#[test]
fn validate_accepts_ascending_nonzero_thresholds() {
    let rules = ScoringRules {
        one_up: OneUpRules {
            max_lives: 5,
            thresholds: vec![1000, 5000, 12000],
        },
        ..Default::default()
    };
    assert!(rules.validate().is_ok());
}

#[test]
fn validate_accepts_no_thresholds() {
    assert!(ScoringRules::default().validate().is_ok());
}

#[test]
fn validate_rejects_a_zero_threshold() {
    let rules = ScoringRules {
        one_up: OneUpRules {
            max_lives: 5,
            thresholds: vec![0, 1000],
        },
        ..Default::default()
    };
    assert_eq!(rules.validate(), Err(ScoringRulesError::ZeroThreshold));
}

#[test]
fn validate_rejects_non_ascending_thresholds() {
    let descending = ScoringRules {
        one_up: OneUpRules {
            max_lives: 5,
            thresholds: vec![5000, 1000],
        },
        ..Default::default()
    };
    assert_eq!(
        descending.validate(),
        Err(ScoringRulesError::ThresholdsNotAscending)
    );

    let duplicate = ScoringRules {
        one_up: OneUpRules {
            max_lives: 5,
            thresholds: vec![1000, 1000],
        },
        ..Default::default()
    };
    assert_eq!(
        duplicate.validate(),
        Err(ScoringRulesError::ThresholdsNotAscending)
    );
}
