use ratgames::config::QuizConfig;
use ratgames::quiz::{Outcome, Phase, Question, Quiz};

fn quiz() -> Quiz {
    Quiz::from_config(&QuizConfig::default())
}

#[test]
fn accepts_is_numeric_and_whitespace_tolerant() {
    let q = Question::new("What is 6+6? ", "12");
    assert!(q.accepts("12"));
    assert!(q.accepts("  12 "));
    assert!(q.accepts("012"));
    assert!(!q.accepts("13"));
    assert!(!q.accepts(""));
    assert!(!q.accepts("twelve"));
}

#[test]
fn correct_answer_wins_and_is_terminal() {
    let mut q = quiz();
    assert_eq!(q.phase(), Phase::Asking);
    assert_eq!(q.submit("12"), Some(Outcome::Correct));
    assert_eq!(q.phase(), Phase::Won);
    q.advance();
    assert_eq!(q.phase(), Phase::Won); // stays won
    assert_eq!(q.submit("12"), None); // no further input accepted
}

#[test]
fn wrong_answer_flashes_then_games_over_then_retries() {
    let cfg = QuizConfig::default();
    let mut q = Quiz::from_config(&cfg);

    assert_eq!(q.submit("7"), Some(Outcome::Wrong));
    assert_eq!(q.phase(), Phase::Rejecting);
    assert!(q.cross_visible()); // visible on the first frame

    for _ in 0..cfg.flash.total_frames() {
        q.advance();
    }
    assert_eq!(q.phase(), Phase::GameOver);
    assert!(!q.cross_visible());

    for _ in 0..cfg.game_over_frames {
        q.advance();
    }
    assert_eq!(q.phase(), Phase::Asking); // looped back for another try
    assert!(q.is_asking());
}

#[test]
fn submit_is_ignored_outside_asking() {
    let mut q = quiz();
    q.submit("7"); // -> Rejecting
    assert_eq!(q.submit("12"), None); // ignored mid-animation
    assert_eq!(q.phase(), Phase::Rejecting);
}

#[test]
fn cross_blinks_the_configured_number_of_times() {
    let cfg = QuizConfig::default();
    let mut q = Quiz::from_config(&cfg);
    q.submit("7");

    // Count rising edges of visibility across the whole sequence.
    let mut edges = 0;
    let mut prev = false;
    for _ in 0..cfg.flash.total_frames() {
        let now = q.cross_visible();
        if now && !prev {
            edges += 1;
        }
        prev = now;
        q.advance();
    }
    assert_eq!(edges, cfg.flash.count);
}
