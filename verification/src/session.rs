//! Session state: the player, score, level progression, and arcade run a game
//! tracks *around* the per-attempt challenge it poses.
//!
//! A game grades one attempt (in its own domain); a session owns a
//! [`PlayerProfile`], a running [`Score`], [`LevelProgress`], and the [`Run`]
//! that sequences the arcade loop — [`Lives`], 1-ups, and game over. [`GameRun`]
//! ties these together, driven by a bare success/failure so no game's content
//! crosses in. [`LevelGoal`] judges one level; [`HighScores`] is a standalone
//! ranked name/points table.

pub mod continues;
pub mod flow;
pub mod game_run;
pub mod high_score_board;
pub mod high_score_layout;
pub mod high_score_store;
pub mod high_scores;
pub mod level_goal;
pub mod player;
pub mod progress;
pub mod rank;
pub mod run;
pub mod scoring;
pub mod screen;

pub use progress::{LevelProgress, Score};
pub use run::{Lives, Run, RunPhase};
pub use level_goal::{LevelGoal, LevelGoalError, LevelOutcome};
pub use scoring::{OneUpRules, ScoringRules, ScoringRulesError, StreakRules};
pub use continues::ContinueRules;
pub use player::PlayerProfile;
pub use game_run::{
    AttemptOutcome, AwardOutcome, Campaign, CampaignError, GameRules, GameRulesError, GameRun,
    LevelSpec, LevelSpecError, RunTally,
};
pub use high_score_board::{BoardFooter, BoardLine, HighScoreBoard, HighScoreBoardSpec};
pub use high_score_layout::{HighScoreLayout, PlacedRow};
pub use high_score_store::{JsonHighScoreStore, ScoresConfig};
pub use high_scores::{HighScoreEntry, HighScores};
pub use rank::{RankRule, RankRules, RankRulesError};
pub use screen::{ScreenChange, ScreenStack};
