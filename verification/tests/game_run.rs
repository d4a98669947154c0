use ratgames::ui::{AnswerMode, AnswerModeError};
use ratgames::session::{
    AttemptOutcome, AwardOutcome, Campaign, CampaignError, ContinueRules, GameRules, GameRulesError,
    GameRun, HighScoreEntry, HighScoreLayout, HighScores, LevelGoal, LevelGoalError, LevelOutcome,
    LevelProgress, LevelSpec, LevelSpecError, Lives, OneUpRules, PlacedRow, PlayerProfile, RankRule,
    RankRules, RankRulesError, Run, RunPhase, RunTally, Score, ScoringRules, ScoringRulesError,
    StreakRules,
};


fn rules() -> GameRules {
    // A compact run to exercise the sequencing: 2 lives, 2 levels, cleared at
    // 3 successes, failed after 1 failure, 10 points a success.
    GameRules {
        starting_lives: 2,
        total_levels: 2,
        required_successes: 3,
        max_failures: 1,
        points_per_success: 10,
    }
}

#[test]
fn game_run_names_the_reusable_run_controller() {
    let rules = GameRules {
        starting_lives: 1,
        total_levels: 1,
        required_successes: 2,
        max_failures: 0,
        points_per_success: 25,
    };
    let mut game_run = GameRun::new(&rules).unwrap();

    let first = game_run.record_attempt(true);
    assert_eq!(first.level_outcome, LevelOutcome::InProgress);
    assert_eq!(first.run_phase, RunPhase::Playing);
    assert_eq!(game_run.run().score().points(), 25);

    let second = game_run.record_attempt(true);
    assert_eq!(second.level_outcome, LevelOutcome::Cleared);
    assert_eq!(second.run_phase, RunPhase::Won);
    assert_eq!(game_run.run().score().points(), 50);
}

#[test]
fn award_adds_bonus_points_without_sequencing() {
    let mut game = GameRun::new(&rules()).unwrap();
    game.record_attempt(true); // 10 base points
    game.award(55); // a bonus, no run sequencing
    assert_eq!(game.run().score().points(), 65);

    // A bonus on the run-winning answer still counts: the win transitions the
    // run before the caller awards, and `award` is unguarded.
    let mut win = GameRun::new(&GameRules {
        starting_lives: 1,
        total_levels: 1,
        required_successes: 1,
        max_failures: 0,
        points_per_success: 100,
    })
    .unwrap();
    assert_eq!(win.record_attempt(true).run_phase, RunPhase::Won);
    win.award(25);
    assert_eq!(win.run().score().points(), 125);
}

#[test]
fn scoring_defaults_to_a_no_op_so_a_run_scores_only_base_points() {
    // Without `set_scoring`, no combo, perfect, or 1UP fires: the outcome is
    // exactly the pre-scoring one.
    let mut game = GameRun::new(&rules()).unwrap();
    let a = game.record_attempt(true);
    assert_eq!(
        (a.streak, a.streak_bonus, a.perfect_bonus, a.one_ups),
        (1, 0, 0, 0)
    );
    let b = game.record_attempt(true);
    assert_eq!((b.streak_bonus, b.perfect_bonus), (0, 0));
    assert_eq!(game.run().score().points(), 20); // 2 × 10 base, no bonuses
}

#[test]
fn streak_bonus_escalates_spans_levels_and_a_miss_breaks_the_combo() {
    let mut game = GameRun::new(&rules()).unwrap();
    game.set_scoring(ScoringRules {
        streak: StreakRules { bonus_per_step: 5 },
        ..Default::default()
    })
    .unwrap();

    let a = game.record_attempt(true);
    assert_eq!((a.streak, a.streak_bonus), (1, 0)); // first correct: no combo yet
    assert_eq!(game.run().score().points(), 10); // base only

    let b = game.record_attempt(true);
    assert_eq!((b.streak, b.streak_bonus), (2, 5));
    assert_eq!(game.run().score().points(), 25); // +10 base +5 combo

    let c = game.record_attempt(true); // 3rd success clears level 1 (run plays on)
    assert_eq!(c.level_outcome, LevelOutcome::Cleared);
    assert_eq!((c.streak, c.streak_bonus), (3, 10));

    // The combo is run-long, not reset when a level clears.
    let d = game.record_attempt(true);
    assert_eq!((d.streak, d.streak_bonus), (4, 15));

    // Any miss breaks it; the next success opens a fresh combo at one.
    let miss = game.record_attempt(false);
    assert_eq!((miss.streak, miss.streak_bonus), (0, 0));
    let e = game.record_attempt(true);
    assert_eq!((e.streak, e.streak_bonus), (1, 0));
}

#[test]
fn a_perfect_clear_pays_only_when_the_level_was_flawless() {
    let rules = GameRules {
        starting_lives: 3,
        total_levels: 2,
        required_successes: 2,
        max_failures: 1,
        points_per_success: 10,
    };
    let mut game = GameRun::new(&rules).unwrap();
    game.set_scoring(ScoringRules {
        perfect_level_points: 100,
        ..Default::default()
    })
    .unwrap();

    assert_eq!(game.record_attempt(true).perfect_bonus, 0); // 1/2, not cleared yet
    let clean = game.record_attempt(true); // 2/2, zero failures → perfect
    assert_eq!(clean.level_outcome, LevelOutcome::Cleared);
    assert_eq!(clean.perfect_bonus, 100);

    // Level 2: a tolerated failure first, so the clear is not perfect.
    game.record_attempt(false); // failures() == 1 (≤ max), level continues
    game.record_attempt(true); // 1/2
    let blemished = game.record_attempt(true); // 2/2 → cleared, but with a blemish
    assert_eq!(blemished.level_outcome, LevelOutcome::Cleared);
    assert_eq!(blemished.perfect_bonus, 0);
}

/// A run long enough to reach 1UP thresholds without clearing or ending: a
/// single level needing many successes and tolerating many failures.
fn long_rules() -> GameRules {
    GameRules {
        starting_lives: 2,
        total_levels: 1,
        required_successes: 20,
        max_failures: 20,
        points_per_success: 10,
    }
}

#[test]
fn a_one_up_fires_once_when_the_score_reaches_a_threshold() {
    let mut game = GameRun::new(&long_rules()).unwrap();
    game.set_scoring(ScoringRules {
        one_up: OneUpRules {
            max_lives: 5,
            thresholds: vec![30],
        },
        ..Default::default()
    })
    .unwrap();

    assert_eq!(game.record_attempt(true).one_ups, 0); // 10
    assert_eq!(game.record_attempt(true).one_ups, 0); // 20
    let third = game.record_attempt(true); // 30 → crosses the threshold
    assert_eq!(third.one_ups, 1);
    assert_eq!(game.run().lives().count(), 3); // 2 starting + 1

    // Fires exactly once: further points past it don't re-grant.
    assert_eq!(game.record_attempt(true).one_ups, 0); // 40
    assert_eq!(game.run().lives().count(), 3);
}

#[test]
fn a_bonus_award_can_trigger_a_one_up() {
    // The subtlety the design turns on: a caller awards its own bonus *after*
    // `record_attempt`, so the award path must check thresholds too.
    let mut game = GameRun::new(&long_rules()).unwrap();
    game.set_scoring(ScoringRules {
        one_up: OneUpRules {
            max_lives: 5,
            thresholds: vec![50],
        },
        ..Default::default()
    })
    .unwrap();

    assert_eq!(game.record_attempt(true).one_ups, 0); // 10
    let awarded = game.award(45); // 55 ≥ 50 — a time bonus pushes over the line
    assert_eq!(awarded.one_ups, 1);
    assert_eq!(game.run().lives().count(), 3);
}

#[test]
fn a_single_award_crossing_several_thresholds_grants_several_lives() {
    let mut game = GameRun::new(&long_rules()).unwrap();
    game.set_scoring(ScoringRules {
        one_up: OneUpRules {
            max_lives: 9,
            thresholds: vec![10, 20, 30],
        },
        ..Default::default()
    })
    .unwrap();
    let awarded = game.award(35); // vaults past all three at once
    assert_eq!(awarded.one_ups, 3);
    assert_eq!(game.run().lives().count(), 5); // 2 + 3
}

#[test]
fn a_one_up_past_the_cap_is_forfeited_but_still_consumes_the_threshold() {
    let mut game = GameRun::new(&long_rules()).unwrap(); // starts with 2 lives
    game.set_scoring(ScoringRules {
        one_up: OneUpRules {
            max_lives: 2, // == starting lives: no room to grow
            thresholds: vec![10, 20],
        },
        ..Default::default()
    })
    .unwrap();

    let a = game.record_attempt(true); // 10 → threshold, but already at the cap
    assert_eq!(a.one_ups, 0);
    assert_eq!(game.run().lives().count(), 2);
    // The threshold is still consumed, so it can't linger and fire later.
    let b = game.record_attempt(true); // 20 → the second threshold, still capped
    assert_eq!(b.one_ups, 0);
    assert_eq!(game.run().lives().count(), 2);
}

#[test]
fn set_scoring_rejects_a_cap_below_starting_lives() {
    let mut game = GameRun::new(&rules()).unwrap(); // 2 starting lives
    assert_eq!(
        game.set_scoring(ScoringRules {
            one_up: OneUpRules {
                max_lives: 1,
                thresholds: vec![],
            },
            ..Default::default()
        }),
        Err(ScoringRulesError::MaxLivesBelowStart {
            max_lives: 1,
            starting_lives: 2,
        })
    );
}

#[test]
fn set_scoring_rejects_malformed_thresholds() {
    let mut game = GameRun::new(&rules()).unwrap();
    assert_eq!(
        game.set_scoring(ScoringRules {
            one_up: OneUpRules {
                max_lives: 5,
                thresholds: vec![0],
            },
            ..Default::default()
        }),
        Err(ScoringRulesError::ZeroThreshold)
    );
    assert_eq!(
        game.set_scoring(ScoringRules {
            one_up: OneUpRules {
                max_lives: 5,
                thresholds: vec![20, 10],
            },
            ..Default::default()
        }),
        Err(ScoringRulesError::ThresholdsNotAscending)
    );
}

#[test]
fn reset_clears_the_combo_and_one_up_progress() {
    let mut game = GameRun::new(&long_rules()).unwrap();
    game.set_scoring(ScoringRules {
        streak: StreakRules { bonus_per_step: 5 },
        one_up: OneUpRules {
            max_lives: 9,
            thresholds: vec![20],
        },
        ..Default::default()
    })
    .unwrap();

    game.record_attempt(true); // streak 1, score 10
    game.record_attempt(true); // streak 2, score 25 ≥ 20 → 1UP
    assert_eq!(game.streak(), 2);
    assert_eq!(game.run().lives().count(), 3);

    game.reset();
    assert_eq!(game.streak(), 0);
    assert_eq!(game.run().score().points(), 0);
    assert_eq!(game.run().lives().count(), 2); // refilled to starting

    // The threshold can fire again — its cursor was cleared with the reset.
    game.record_attempt(true); // 10
    let re = game.record_attempt(true); // 25 ≥ 20 again
    assert_eq!(re.one_ups, 1);
}

#[test]
fn the_tally_spans_levels_and_stops_once_the_run_ends() {
    let mut game = GameRun::new(&rules()).unwrap();
    assert_eq!(game.tally(), RunTally::default());

    game.record_attempt(true);
    game.record_attempt(false); // tolerated (max 1), the level continues
    game.record_attempt(true);
    let cleared = game.record_attempt(true); // 3rd success clears level 0
    assert_eq!(cleared.level_outcome, LevelOutcome::Cleared);
    // The tally is run-long: the clear did not reset it like the goal.
    assert_eq!(
        game.tally(),
        RunTally {
            successes: 3,
            failures: 1,
        }
    );

    for _ in 0..3 {
        game.record_attempt(true); // clear level 1 -> the run is won
    }
    assert_eq!(game.phase(), RunPhase::Won);
    let at_win = game.tally();
    game.record_attempt(false); // inert once won: not tallied
    assert_eq!(game.tally(), at_win);

    game.reset();
    assert_eq!(game.tally(), RunTally::default());
}

#[test]
fn rank_reads_the_runs_own_facts() {
    let rank_rules = RankRules {
        rules: vec![
            RankRule {
                title: "NO MISS CHAMP".to_string(),
                requires_won: true,
                max_failures: Some(0),
                ..Default::default()
            },
            RankRule {
                title: "MATH MASTER".to_string(),
                requires_won: true,
                ..Default::default()
            },
        ],
    };

    // A flawless win earns the proudest rank.
    let mut flawless = GameRun::new(&rules()).unwrap();
    for _ in 0..6 {
        flawless.record_attempt(true);
    }
    assert_eq!(flawless.phase(), RunPhase::Won);
    assert_eq!(flawless.rank(&rank_rules), Some("NO MISS CHAMP"));

    // One tolerated miss on the way drops it to the plain win rank.
    let mut blemished = GameRun::new(&rules()).unwrap();
    blemished.record_attempt(false);
    for _ in 0..6 {
        blemished.record_attempt(true);
    }
    assert_eq!(blemished.phase(), RunPhase::Won);
    assert_eq!(blemished.rank(&rank_rules), Some("MATH MASTER"));

    // A run still playing has not won: no win rank matches it.
    let playing = GameRun::new(&rules()).unwrap();
    assert_eq!(playing.rank(&rank_rules), None);
}

#[test]
fn default_rules_are_playable() {
    assert!(GameRules::default().validate().is_ok());
}

#[test]
fn validate_rejects_degenerate_rules() {
    let ok = GameRules::default();
    assert_eq!(
        GameRules {
            starting_lives: 0,
            ..ok
        }
        .validate(),
        Err(GameRulesError::ZeroLives)
    );
    assert_eq!(
        GameRules {
            total_levels: 0,
            ..ok
        }
        .validate(),
        Err(GameRulesError::ZeroLevels)
    );
    assert_eq!(
        GameRules {
            required_successes: 0,
            ..ok
        }
        .validate(),
        Err(GameRulesError::ZeroRequiredSuccesses)
    );
}

#[test]
fn new_rejects_degenerate_rules() {
    assert_eq!(
        GameRun::new(&GameRules {
            required_successes: 0,
            ..GameRules::default()
        })
        .map(|_| ())
        .unwrap_err(),
        GameRulesError::ZeroRequiredSuccesses
    );
}

#[test]
fn successes_clear_a_level_award_points_and_rearm_the_goal() {
    let mut game = GameRun::new(&rules()).unwrap();
    for _ in 0..2 {
        let out = game.record_attempt(true);
        assert_eq!(out.level_outcome, LevelOutcome::InProgress);
        assert_eq!(out.run_phase, RunPhase::Playing);
    }
    let out = game.record_attempt(true); // third success clears level 0
    assert_eq!(out.level_outcome, LevelOutcome::Cleared);
    assert_eq!(out.run_phase, RunPhase::Playing);
    assert_eq!(game.run().levels().current(), 1);
    assert_eq!(game.run().score().points(), 30); // 3 * 10
    // The goal was re-armed for the new level: counts back to zero.
    assert_eq!(game.goal().successes(), 0);
    assert_eq!(game.goal().failures(), 0);
}

#[test]
fn exceeding_failures_fails_the_level_costs_a_life_and_rearms() {
    let mut game = GameRun::new(&rules()).unwrap();
    let first = game.record_attempt(false); // 1 failure == max, still in progress
    assert_eq!(first.level_outcome, LevelOutcome::InProgress);
    assert_eq!(game.run().lives().count(), 2);

    let out = game.record_attempt(false); // 2 > max: level failed
    assert_eq!(out.level_outcome, LevelOutcome::Failed);
    assert_eq!(out.run_phase, RunPhase::Playing);
    assert_eq!(game.run().lives().count(), 1); // cost a life
    assert_eq!(game.goal().failures(), 0); // re-armed
}

#[test]
fn clearing_every_level_wins_the_run() {
    let mut game = GameRun::new(&rules()).unwrap();
    let mut last = None;
    for _ in 0..6 {
        // 2 levels * 3 successes
        last = Some(game.record_attempt(true));
    }
    let out = last.unwrap();
    assert_eq!(out.level_outcome, LevelOutcome::Cleared);
    assert_eq!(out.run_phase, RunPhase::Won);
    assert_eq!(game.run().score().points(), 60); // 6 * 10
}

#[test]
fn running_out_of_lives_ends_the_run() {
    let mut game = GameRun::new(&rules()).unwrap();
    // Each level: 2 failures fail it and cost a life. 2 lives -> game over on
    // the second failed level.
    game.record_attempt(false);
    game.record_attempt(false); // level 0 failed, life 2 -> 1
    assert_eq!(game.phase(), RunPhase::Playing);
    game.record_attempt(false);
    let out = game.record_attempt(false); // level 1 failed, life 1 -> 0
    assert_eq!(out.run_phase, RunPhase::GameOver);
    assert_eq!(game.run().lives().count(), 0);
}

#[test]
fn a_finished_run_ignores_further_attempts() {
    let mut game = GameRun::new(&rules()).unwrap();
    for _ in 0..6 {
        game.record_attempt(true); // win the run
    }
    assert_eq!(game.phase(), RunPhase::Won);
    let score = game.run().score().points();

    let out = game.record_attempt(true); // inert once won
    assert_eq!(out.run_phase, RunPhase::Won);
    assert_eq!(
        game.run().score().points(),
        score,
        "no points after the run ends"
    );
}

#[test]
fn reset_restores_a_full_playthrough_and_keeps_the_name() {
    let mut game = GameRun::new(&rules()).unwrap();
    game.set_player_name("ADA");
    for _ in 0..6 {
        game.record_attempt(true); // win, so phase != Playing
    }
    assert_eq!(game.phase(), RunPhase::Won);

    game.reset();
    assert_eq!(game.phase(), RunPhase::Playing);
    assert_eq!(game.run().lives().count(), 2);
    assert_eq!(game.run().score().points(), 0);
    assert_eq!(game.run().levels().current(), 0);
    assert_eq!(game.goal().successes(), 0);
    assert_eq!(game.profile().name(), "ADA"); // profile survives a reset
}

/// A two-level campaign whose levels differ in every reusable dimension:
/// goal, reward, and input mode.
fn campaign() -> Campaign {
    Campaign {
        starting_lives: 3,
        levels: vec![
            LevelSpec {
                required_successes: 2,
                max_failures: 1,
                points_per_success: 10,
                time_limit_frames: 0,
                answer_mode: AnswerMode::Typed,
            },
            LevelSpec {
                required_successes: 3,
                max_failures: 2,
                points_per_success: 100,
                time_limit_frames: 300,
                answer_mode: AnswerMode::MultipleChoice { options: 4 },
            },
        ],
    }
}

#[test]
fn campaign_runs_each_levels_own_goal_reward_and_input() {
    let mut game = GameRun::from_campaign(&campaign()).unwrap();
    // Level 0: two successes at 10 points each clear it.
    assert_eq!(game.current_level_spec().answer_mode, AnswerMode::Typed);
    assert_eq!(
        game.record_attempt(true).level_outcome,
        LevelOutcome::InProgress
    );
    let cleared = game.record_attempt(true);
    assert_eq!(cleared.level_outcome, LevelOutcome::Cleared);
    assert_eq!(cleared.run_phase, RunPhase::Playing);
    assert_eq!(game.run().score().points(), 20);
    assert_eq!(game.run().levels().current(), 1);

    // Level 1 armed its own goal (3 successes) and its own input mode.
    assert_eq!(
        game.current_level_spec().answer_mode,
        AnswerMode::MultipleChoice { options: 4 }
    );
    assert_eq!(game.goal().required_successes(), 3);
    for _ in 0..2 {
        assert_eq!(
            game.record_attempt(true).level_outcome,
            LevelOutcome::InProgress
        );
    }
    let won = game.record_attempt(true); // third success clears the last level
    assert_eq!(won.level_outcome, LevelOutcome::Cleared);
    assert_eq!(won.run_phase, RunPhase::Won);
    // 2 * 10 (level 0) + 3 * 100 (level 1): rewards are per level.
    assert_eq!(game.run().score().points(), 320);
    // A won run still reports a spec (the final level's), not a panic.
    assert_eq!(
        game.current_level_spec().answer_mode,
        AnswerMode::MultipleChoice { options: 4 }
    );
}

#[test]
fn failing_a_level_retries_the_same_levels_goal() {
    let mut game = GameRun::from_campaign(&campaign()).unwrap();
    // Level 0 tolerates one failure; the second fails the level.
    assert_eq!(
        game.record_attempt(false).level_outcome,
        LevelOutcome::InProgress
    );
    let failed = game.record_attempt(false);
    assert_eq!(failed.level_outcome, LevelOutcome::Failed);
    assert_eq!(failed.run_phase, RunPhase::Playing);
    assert_eq!(game.run().lives().count(), 2); // cost a life
    // Still on level 0, its goal freshly re-armed for a retry.
    assert_eq!(game.run().levels().current(), 0);
    assert_eq!(game.goal().failures(), 0);
    assert_eq!(game.goal().required_successes(), 2);
}

#[test]
fn a_uniform_campaign_matches_equivalent_game_rules() {
    // new(&GameRules) is a campaign of identical levels, so a hand-built
    // uniform campaign sequences identically.
    let rules = GameRules {
        starting_lives: 2,
        total_levels: 2,
        required_successes: 3,
        max_failures: 1,
        points_per_success: 10,
    };
    let spec = LevelSpec {
        required_successes: 3,
        max_failures: 1,
        points_per_success: 10,
        time_limit_frames: 0,
        answer_mode: AnswerMode::Typed,
    };
    let uniform = Campaign {
        starting_lives: 2,
        levels: vec![spec, spec],
    };
    let mut from_rules = GameRun::new(&rules).unwrap();
    let mut from_campaign = GameRun::from_campaign(&uniform).unwrap();
    for _ in 0..6 {
        let a = from_rules.record_attempt(true);
        let b = from_campaign.record_attempt(true);
        assert_eq!(a, b);
    }
    assert_eq!(from_rules.phase(), RunPhase::Won);
    assert_eq!(
        from_rules.run().score().points(),
        from_campaign.run().score().points()
    );
}

#[test]
fn default_campaign_is_playable() {
    assert!(Campaign::default().validate().is_ok());
    assert!(GameRun::from_campaign(&Campaign::default()).is_ok());
}

#[test]
fn from_campaign_rejects_degenerate_campaigns() {
    let ok = LevelSpec::default();
    assert_eq!(
        Campaign {
            starting_lives: 0,
            levels: vec![ok],
        }
        .validate(),
        Err(CampaignError::ZeroLives)
    );
    assert_eq!(
        Campaign {
            starting_lives: 3,
            levels: vec![],
        }
        .validate(),
        Err(CampaignError::NoLevels)
    );
    // A degenerate level is reported with its index and the underlying reason.
    assert_eq!(
        Campaign {
            starting_lives: 3,
            levels: vec![
                ok,
                LevelSpec {
                    required_successes: 0,
                    ..ok
                },
            ],
        }
        .validate(),
        Err(CampaignError::Level {
            index: 1,
            source: LevelSpecError::ZeroRequiredSuccesses,
        })
    );
    assert_eq!(
        Campaign {
            starting_lives: 3,
            levels: vec![LevelSpec {
                answer_mode: AnswerMode::MultipleChoice { options: 1 },
                ..ok
            }],
        }
        .validate(),
        Err(CampaignError::Level {
            index: 0,
            source: LevelSpecError::AnswerMode(AnswerModeError::TooFewOptions),
        })
    );
    // The constructor surfaces the same rejection.
    assert!(
        GameRun::from_campaign(&Campaign {
            starting_lives: 3,
            levels: vec![],
        })
        .is_err()
    );
}
