use ratgames::geometry::Point;
use ratgames::session::{
    AttemptOutcome, AwardOutcome, Campaign, CampaignError, ContinueRules, GameRules, GameRulesError,
    GameRun, HighScoreEntry, HighScoreLayout, HighScores, LevelGoal, LevelGoalError, LevelOutcome,
    LevelProgress, LevelSpec, LevelSpecError, Lives, OneUpRules, PlacedRow, PlayerProfile, RankRule,
    RankRules, RankRulesError, Run, RunPhase, RunTally, Score, ScoringRules, ScoringRulesError,
    StreakRules,
};

fn board(pairs: &[(&str, u32)]) -> HighScores {
    let mut b = HighScores::new();
    for (name, points) in pairs {
        b.record(*name, *points, 100);
    }
    b
}

fn layout() -> HighScoreLayout {
    HighScoreLayout {
        origin: Point::new(16, 60),
        row_pitch: 36,
        column_width: 300,
        rows_per_column: 5,
        name_width: 5,
    }
}

#[test]
fn a_row_is_rank_name_points_at_the_origin() {
    let rows = layout().rows(&board(&[("ada", 300)]), 10);
    assert_eq!(rows.len(), 1);
    assert_eq!(rows[0].text, format!("{:>2} {:<5}{:>5}", 1, "ADA", 300));
    assert_eq!(rows[0].at, Point::new(16, 60));
}

#[test]
fn names_are_upper_cased_and_clipped_to_width() {
    let rows = layout().rows(&board(&[("Lovelace", 1)]), 10);
    assert!(rows[0].text.contains("LOVEL")); // upper-cased, clipped to 5
    assert!(!rows[0].text.contains("LOVELA")); // the 6th char is dropped
}

#[test]
fn entries_wrap_top_to_bottom_then_into_columns() {
    // 7 entries, 5 per column: rows 0..=4 fill column 0, then 5..=6 start column 1.
    let seven = board(&[
        ("A", 70),
        ("B", 60),
        ("C", 50),
        ("D", 40),
        ("E", 30),
        ("F", 20),
        ("G", 10),
    ]);
    let rows = layout().rows(&seven, 10);
    assert_eq!(rows.len(), 7);
    assert_eq!(rows[0].at, Point::new(16, 60)); // column 0, row 0
    assert_eq!(rows[4].at, Point::new(16, 60 + 4 * 36)); // column 0, row 4
    assert_eq!(rows[5].at, Point::new(16 + 300, 60)); // column 1, row 0
    assert_eq!(rows[6].at, Point::new(16 + 300, 60 + 36)); // column 1, row 1
}

#[test]
fn capacity_caps_the_displayed_rows() {
    let eight = board(&[
        ("A", 8),
        ("B", 7),
        ("C", 6),
        ("D", 5),
        ("E", 4),
        ("F", 3),
        ("G", 2),
        ("H", 1),
    ]);
    assert_eq!(layout().rows(&eight, 3).len(), 3);
}

#[test]
fn below_sits_under_the_tallest_column() {
    // Three entries fill one column three deep.
    let three = board(&[("A", 3), ("B", 2), ("C", 1)]);
    assert_eq!(layout().below(&three, 10), Point::new(16, 60 + 3 * 36));
    // Seven entries fill the first column (five), which is the tallest.
    let seven = board(&[
        ("A", 7),
        ("B", 6),
        ("C", 5),
        ("D", 4),
        ("E", 3),
        ("F", 2),
        ("G", 1),
    ]);
    assert_eq!(layout().below(&seven, 10), Point::new(16, 60 + 5 * 36));
}

#[test]
fn an_empty_board_has_no_rows_and_a_footer_at_the_origin() {
    let empty = HighScores::new();
    assert!(layout().rows(&empty, 10).is_empty());
    assert_eq!(layout().below(&empty, 10), Point::new(16, 60));
}
