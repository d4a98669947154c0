use ratgames::config::{ConfigError, FontSource, GlyphSourceConfig, MarqueeConfig, QuizConfig};
use ratgames::sprite::Sprite;
use ratgames::game::MathGame;
use ratgames::geometry::{Rect, Size};
use ratgames::glyph::Bitmap8x8;
use ratgames::present::{OverlayLayer, Presentation};
use ratgames::quiz::Phase;
use ratgames::surface::Surface;

fn game() -> MathGame {
    MathGame::new(
        &QuizConfig::default(),
        &MarqueeConfig::default(),
        &Bitmap8x8,
        &Bitmap8x8,
        &Bitmap8x8,
    )
    .expect("default config builds")
}

#[test]
fn types_an_answer_and_wins() {
    let mut g = game();
    assert!(g.is_asking());
    for ch in "12".chars() {
        g.type_char(ch);
    }
    assert_eq!(g.answer(), "12");
    g.submit();
    assert_eq!(g.phase(), Phase::Won);
}

#[test]
fn wrong_answer_runs_the_reject_then_retries() {
    let config = QuizConfig::default();
    let mut g = game();
    g.type_char('7');
    g.submit();
    assert_eq!(g.phase(), Phase::Rejecting);
    for _ in 0..config.flash.total_frames() {
        g.tick();
    }
    assert_eq!(g.phase(), Phase::GameOver);
    for _ in 0..config.game_over_frames {
        g.tick();
    }
    assert_eq!(g.phase(), Phase::Asking);
}

#[test]
fn input_is_ignored_outside_asking() {
    let mut g = game();
    g.type_char('7');
    g.submit(); // -> Rejecting
    assert_eq!(g.phase(), Phase::Rejecting);
    g.type_char('9'); // gated: not asking
    assert_eq!(g.answer(), ""); // submit cleared it; nothing new buffered
    g.backspace();
    assert_eq!(g.answer(), "");
}

#[test]
fn control_characters_are_not_typed_and_backspace_erases() {
    let mut g = game();
    g.type_char('1');
    g.type_char('\u{8}');
    g.type_char('\n');
    g.type_char('3');
    assert_eq!(g.answer(), "13");
    g.backspace();
    assert_eq!(g.answer(), "1");
    assert_eq!(g.line().cursor(), 1);
    assert_eq!(g.prompt(), QuizConfig::default().question);
}

struct Marker;

impl OverlayLayer for Marker {
    fn render(&self, window: &mut Surface, _viewport: Rect) {
        let _ = window;
    }
}

#[test]
fn the_input_overlay_hides_once_won() {
    let mut g = game();
    assert!(g.shows_input());
    let mut presentation = Presentation::new(
        Size::new(256, 256),
        ratgames::color::Color::rgb(0, 0, 0),
        ratgames::color::Color::rgb(0, 0, 0),
        1,
    );
    let mut framebuffer = Surface::new(Size::new(512, 512), ratgames::color::Color::rgb(0, 0, 0));
    g.render(&mut presentation, &mut framebuffer, &Marker);
    g.type_char('1');
    g.type_char('2');
    g.submit();
    assert!(!g.shows_input());
    g.tick();
    g.render(&mut presentation, &mut framebuffer, &Marker);
    assert_eq!(framebuffer.size(), Size::new(512, 512));
}

#[test]
fn the_first_banner_that_fails_is_the_error() {
    let quiz = QuizConfig::default();
    let bad = |m: &str| Err(ConfigError::Invalid(m.to_string()));
    let ok = || Ok(Sprite::new(Size::new(2, 2)));
    assert!(matches!(
        MathGame::from_banners(&quiz, 1, bad("cross"), bad("sign"), ok()),
        Err(ConfigError::Invalid(m)) if m == "cross"
    ));
    assert!(matches!(
        MathGame::from_banners(&quiz, 1, ok(), bad("sign"), bad("win")),
        Err(ConfigError::Invalid(m)) if m == "sign"
    ));
    let g = MathGame::from_banners(&quiz, 3, ok(), ok(), ok()).expect("all banners baked");
    assert!(g.is_asking());
    assert_eq!(g.answer(), "");
}

#[test]
fn an_oversized_cross_glyph_source_fails_the_session() {
    let mut quiz = QuizConfig::default();
    quiz.cross.glyph_source =
        GlyphSourceConfig::Raster { cell_px: 0, threshold: 128, font: FontSource::default() };
    let r = MathGame::new(&quiz, &MarqueeConfig::default(), &Bitmap8x8, &Bitmap8x8, &Bitmap8x8);
    assert!(matches!(r, Err(ConfigError::Invalid(_))));
}
