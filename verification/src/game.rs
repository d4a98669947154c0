//! [`MathGame`] — the session that drives the math quiz.
//!
//! It owns the [`Quiz`] rules, the answer being typed, and the pixel layers
//! (the reject cross, the game-over sign, the win marquee), and maps the
//! current phase to what is drawn this frame. Input arrives as method calls,
//! a frame advances with [`tick`](MathGame::tick), and a frame is composed with
//! [`render`](MathGame::render); the input field that draws the answer in
//! device pixels is the caller's overlay.

use vstd::prelude::*;

use crate::chars::{char_utf8_len, control, is_control};
use crate::config::layout::styled;
use crate::config::{glyph_source_ok, ConfigError, MarqueeConfig, QuizConfig};
use crate::config::layout::made_from;
use crate::glyph::GlyphSource;
use crate::sprite::Sprite;
use crate::text::{BigText, TextColors};
use crate::input::InputLine;
use crate::marquee::{period, Marquee};
use crate::placard::Placard;
use crate::present::{spec_fit_scale, spec_viewport, OverlayLayer, PixelLayer, Presentation};
use crate::quiz::{spec_accepts, spec_step, Phase, Quiz};
use crate::surface::{upscale_word, Surface};

verus! {

/// `s` is `text` baked through `source`'s glyphs as big text in the given
/// style.
pub open spec fn banner_of<S: GlyphSource + ?Sized>(
    source: &S,
    s: Sprite,
    text: Seq<char>,
    scale: u32,
    tracking: u32,
    depth: u32,
    outline: u32,
    gap: u32,
    colors: TextColors,
) -> bool {
    exists|b: BigText|
        #![trigger styled(b, scale, tracking, depth, outline, gap, colors)]
        styled(b, scale, tracking, depth, outline, gap, colors) && made_from(
            source,
            b,
            text,
            Ok::<Sprite, ConfigError>(s),
        )
}

/// The quiz session: rules, typed answer, and the layers each phase shows.
#[derive(Debug)]
pub struct MathGame {
    quiz: Quiz,
    line: InputLine,
    cross: Placard,
    game_over: Placard,
    win: Marquee,
}

impl MathGame {
    pub closed spec fn spec_quiz(self) -> Quiz {
        self.quiz
    }

    /// The answer being typed.
    pub closed spec fn spec_line(self) -> InputLine {
        self.line
    }

    pub closed spec fn spec_win(self) -> Marquee {
        self.win
    }

    pub closed spec fn spec_cross(self) -> Placard {
        self.cross
    }

    pub closed spec fn spec_game_over(self) -> Placard {
        self.game_over
    }

    /// The quiz and the answer line are well formed, and the flash timing can
    /// be counted in a `u32`.
    pub closed spec fn wf(self) -> bool {
        &&& self.quiz.wf()
        &&& self.line.wf()
        &&& self.quiz.spec_flash().on_frames + self.quiz.spec_flash().off_frames <= u32::MAX
        &&& self.quiz.spec_flash().spec_total() <= u32::MAX
    }

    /// The session for `quiz`: the cross and game-over signs baked through
    /// `cross_source` and `game_over_source`, the win banner through
    /// `win_source` with the `marquee` style, an empty answer, and the quiz
    /// asking. The banners are baked in that order and the first that cannot
    /// be baked is the error; a banner whose glyph source is out of range
    /// cannot be baked.
    pub fn new<C: GlyphSource + ?Sized, G: GlyphSource + ?Sized, W: GlyphSource + ?Sized>(
        quiz: &QuizConfig,
        marquee: &MarqueeConfig,
        cross_source: &C,
        game_over_source: &G,
        win_source: &W,
    ) -> (r: Result<Self, ConfigError>)
        requires
            quiz.flash.on_frames + quiz.flash.off_frames <= u32::MAX,
            quiz.flash.spec_total() <= u32::MAX,
        ensures
            !glyph_source_ok(quiz.cross.glyph_source) ==> r matches Err(ConfigError::Invalid(_)),
            !glyph_source_ok(quiz.game_over.glyph_source) ==> r is Err,
            !glyph_source_ok(marquee.glyph_source) ==> r is Err,
            r matches Ok(g) ==> {
                &&& g.asking_for(quiz, marquee.speed)
                &&& banner_of(
                    cross_source,
                    g.spec_cross().spec_sprite(),
                    quiz.cross.text@,
                    quiz.cross.scale,
                    quiz.cross.tracking,
                    quiz.cross.shadow_depth,
                    quiz.cross.outline_px,
                    quiz.cross.gap,
                    quiz.cross.colors,
                )
                &&& banner_of(
                    game_over_source,
                    g.spec_game_over().spec_sprite(),
                    quiz.game_over.text@,
                    quiz.game_over.scale,
                    quiz.game_over.tracking,
                    quiz.game_over.shadow_depth,
                    quiz.game_over.outline_px,
                    quiz.game_over.gap,
                    quiz.game_over.colors,
                )
                &&& banner_of(
                    win_source,
                    g.spec_win().spec_sprite(),
                    quiz.win_text@,
                    marquee.text_scale,
                    marquee.tracking,
                    marquee.shadow_depth,
                    marquee.outline_px,
                    marquee.gap,
                    marquee.colors,
                )
            },
    {
        let cross = quiz.cross.sprite(cross_source)?;
        let game_over = quiz.game_over.sprite(game_over_source)?;
        let win = marquee.text_sprite(win_source, quiz.win_text.as_str())?;
        MathGame::from_banners(quiz, marquee.speed, Ok(cross), Ok(game_over), Ok(win))
    }

    /// The session for `quiz` from its baked banners: the reject `cross`, the
    /// `game_over` sign, and the `win` banner scrolled at `speed`. The first
    /// banner that is an error, in that order, is the result; otherwise the
    /// quiz asks with an empty answer and the banners as its layers.
    pub fn from_banners(
        quiz: &QuizConfig,
        speed: u32,
        cross: Result<Sprite, ConfigError>,
        game_over: Result<Sprite, ConfigError>,
        win: Result<Sprite, ConfigError>,
    ) -> (r: Result<Self, ConfigError>)
        requires
            quiz.flash.on_frames + quiz.flash.off_frames <= u32::MAX,
            quiz.flash.spec_total() <= u32::MAX,
            cross matches Ok(s) ==> s.wf(),
            game_over matches Ok(s) ==> s.wf(),
            win matches Ok(s) ==> s.wf(),
        ensures
            cross matches Err(e) ==> r == Err::<Self, ConfigError>(e),
            cross is Ok ==> (game_over matches Err(e) ==> r == Err::<Self, ConfigError>(e)),
            cross is Ok && game_over is Ok ==> (win matches Err(e) ==> r == Err::<Self, ConfigError>(
                e,
            )),
            cross is Ok && game_over is Ok && win is Ok ==> (r matches Ok(g) && {
                &&& g.asking_for(quiz, speed)
                &&& g.spec_cross().spec_sprite() == cross->Ok_0
                &&& g.spec_game_over().spec_sprite() == game_over->Ok_0
                &&& g.spec_win().spec_sprite() == win->Ok_0
            }),
    {
        let cross = match cross {
            Ok(s) => Placard::new(s),
            Err(e) => {
                return Err(e);
            },
        };
        let game_over = match game_over {
            Ok(s) => Placard::new(s),
            Err(e) => {
                return Err(e);
            },
        };
        let win = match win {
            Ok(s) => Marquee::new(s, speed),
            Err(e) => {
                return Err(e);
            },
        };
        Ok(MathGame { quiz: Quiz::from_config(quiz), line: InputLine::new(), cross, game_over, win })
    }

    /// A fresh session for `quiz`: well formed, asking `quiz`'s question with
    /// its timing, an empty answer, and the win banner at rest, scrolling at
    /// `speed`.
    pub open spec fn asking_for(self, quiz: &QuizConfig, speed: u32) -> bool {
        &&& self.wf()
        &&& self.spec_quiz().spec_question().spec_prompt() == quiz.question@
        &&& self.spec_quiz().spec_question().spec_expected() == quiz.expected@
        &&& self.spec_quiz().spec_flash() == quiz.flash
        &&& self.spec_quiz().spec_game_over_frames() == quiz.game_over_frames
        &&& self.spec_quiz().spec_phase() == Phase::Asking
        &&& self.spec_line().spec_text() == Seq::<char>::empty()
        &&& self.spec_line().spec_cursor() == 0
        &&& self.spec_win().spec_offset() == 0
        &&& self.spec_win().spec_speed() == speed
    }

    /// Type a character into the answer; ignored outside the asking phase, and
    /// control characters are never typed.
    pub fn type_char(&mut self, ch: char)
        requires
            old(self).wf(),
            old(self).spec_line().spec_cursor() + 4 <= usize::MAX,
        ensures
            final(self).wf(),
            final(self).spec_quiz() == old(self).spec_quiz(),
            final(self).spec_win() == old(self).spec_win(),
            if old(self).spec_quiz().spec_phase() == Phase::Asking && !is_control(ch) {
                &&& final(self).spec_line().spec_text() == old(self).spec_line().spec_text().insert(
                    old(self).spec_line().spec_at(),
                    ch,
                )
                &&& final(self).spec_line().spec_at() == old(self).spec_line().spec_at() + 1
                &&& final(self).spec_line().spec_cursor() == old(self).spec_line().spec_cursor()
                    + char_utf8_len(ch)
            } else {
                final(self).spec_line() == old(self).spec_line()
            },
    {
        if self.quiz.is_asking() && !control(ch) {
            self.line.insert(ch);
        }
    }

    /// Erase the character before the caret; ignored outside the asking phase.
    pub fn backspace(&mut self)
        requires
            old(self).wf(),
        ensures
            final(self).wf(),
            final(self).spec_quiz() == old(self).spec_quiz(),
            final(self).spec_win() == old(self).spec_win(),
            old(self).spec_quiz().spec_phase() != Phase::Asking ==> final(self).spec_line() == old(
                self,
            ).spec_line(),
            old(self).spec_quiz().spec_phase() == Phase::Asking && old(self).spec_line().spec_at()
                > 0 ==> final(self).spec_line().spec_text() == old(
                self,
            ).spec_line().spec_text().remove(old(self).spec_line().spec_at() - 1),
            old(self).spec_line().spec_at() == 0 ==> final(self).spec_line().spec_text() == old(
                self,
            ).spec_line().spec_text(),
    {
        if self.quiz.is_asking() {
            self.line.backspace();
        }
    }

    /// Submit the typed answer: while asking, grade it and clear the line;
    /// otherwise nothing happens.
    pub fn submit(&mut self)
        requires
            old(self).wf(),
        ensures
            final(self).wf(),
            final(self).spec_win() == old(self).spec_win(),
            old(self).spec_quiz().spec_phase() != Phase::Asking ==> final(self).spec_quiz() == old(
                self,
            ).spec_quiz() && final(self).spec_line() == old(self).spec_line(),
            old(self).spec_quiz().spec_phase() == Phase::Asking ==> {
                &&& final(self).spec_line().spec_text() == Seq::<char>::empty()
                &&& final(self).spec_line().spec_cursor() == 0
                &&& if spec_accepts(
                    old(self).spec_quiz().spec_question().spec_expected(),
                    old(self).spec_line().spec_text(),
                ) {
                    final(self).spec_quiz().spec_phase() == Phase::Won
                } else {
                    final(self).spec_quiz().spec_phase() == Phase::Rejecting
                        && final(self).spec_quiz().spec_frame() == 0
                }
                &&& final(self).spec_quiz().spec_question() == old(self).spec_quiz().spec_question()
            },
    {
        if self.quiz.is_asking() {
            let answer = self.line.text().to_owned();
            self.line.clear();
            let _ = self.quiz.submit(answer.as_str());
        }
    }

    /// Advance one frame: the quiz's timers, and the win banner's scroll once
    /// the quiz is won.
    pub fn tick(&mut self)
        requires
            old(self).wf(),
            old(self).spec_win().spec_offset() + old(self).spec_win().spec_speed() <= u32::MAX,
        ensures
            final(self).wf(),
            final(self).spec_line() == old(self).spec_line(),
            (final(self).spec_quiz().spec_phase(), final(self).spec_quiz().spec_frame())
                == spec_step(
                old(self).spec_quiz().spec_phase(),
                old(self).spec_quiz().spec_frame(),
                old(self).spec_quiz().spec_flash().spec_total(),
                old(self).spec_quiz().spec_game_over_frames() as int,
            ),
            final(self).spec_quiz().spec_question() == old(self).spec_quiz().spec_question(),
            final(self).spec_quiz().spec_phase() == Phase::Won ==> final(self).spec_win().spec_offset()
                == (old(self).spec_win().spec_offset() + old(self).spec_win().spec_speed())
                % period(old(self).spec_win().spec_sprite().dims().w),
            final(self).spec_quiz().spec_phase() != Phase::Won ==> final(self).spec_win() == old(
                self,
            ).spec_win(),
            final(self).spec_win().spec_sprite() == old(self).spec_win().spec_sprite(),
            final(self).spec_win().spec_speed() == old(self).spec_win().spec_speed(),
    {
        self.quiz.advance();
        if self.quiz.phase() == Phase::Won {
            self.win.advance();
        }
    }

    /// The current phase.
    pub fn phase(&self) -> (p: Phase)
        ensures
            p == self.spec_quiz().spec_phase(),
    {
        self.quiz.phase()
    }

    /// Whether the quiz is accepting input.
    pub fn is_asking(&self) -> (b: bool)
        ensures
            b == (self.spec_quiz().spec_phase() == Phase::Asking),
    {
        self.quiz.is_asking()
    }

    /// The answer typed so far.
    pub fn answer(&self) -> (a: &str)
        requires
            self.wf(),
        ensures
            a@ == self.spec_line().spec_text(),
    {
        self.line.text()
    }

    /// The answer line, for the caller's input overlay to draw.
    pub fn line(&self) -> (l: &InputLine)
        ensures
            *l == self.spec_line(),
    {
        &self.line
    }

    /// The prompt the input field shows before the answer.
    pub fn prompt(&self) -> (p: &str)
        ensures
            p@ == self.spec_quiz().spec_question().spec_prompt(),
    {
        self.quiz.prompt()
    }

    /// Whether the input overlay is drawn this frame: always but once won.
    pub fn shows_input(&self) -> (b: bool)
        ensures
            b == (self.spec_quiz().spec_phase() != Phase::Won),
    {
        self.quiz.phase() != Phase::Won
    }

    /// Compose a frame: the phase's pixel layer into the virtual screen, and
    /// `input` (the caller's field drawing [`line`](Self::line)) on top unless
    /// the quiz is won.
    pub fn render(
        &self,
        presentation: &mut Presentation,
        framebuffer: &mut Surface,
        input: &dyn OverlayLayer,
    )
        requires
            self.wf(),
            old(presentation).wf(),
            old(presentation).screen().dims().w > 0,
            old(presentation).screen().dims().h > 0,
            old(framebuffer).wf(),
        ensures
            final(presentation).wf(),
            final(presentation).screen().dims() == old(presentation).screen().dims(),
            final(framebuffer).wf(),
            final(framebuffer).dims() == old(framebuffer).dims(),
            self.spec_quiz().spec_phase() == Phase::Asking ==> forall|x: int, y: int| #[trigger]
                final(presentation).screen().dims().holds(x, y) ==> final(presentation).screen().at(
                    x,
                    y,
                ) == old(presentation).spec_backdrop().spec_packed(),
            self.spec_quiz().spec_phase() == Phase::Won ==> forall|x: int, y: int| #[trigger]
                final(framebuffer).dims().holds(x, y) ==> final(framebuffer).at(x, y)
                    == upscale_word(
                    old(presentation).spec_letterbox().spec_packed(),
                    x,
                    y,
                    final(presentation).screen(),
                    spec_fit_scale(
                        old(presentation).screen().dims(),
                        old(framebuffer).dims(),
                        old(presentation).spec_min_scale(),
                    ),
                    spec_viewport(
                        old(presentation).screen().dims(),
                        old(framebuffer).dims(),
                        old(presentation).spec_min_scale(),
                    ).origin,
                ),
    {
        let mut world: Vec<&dyn PixelLayer> = Vec::new();
        match self.quiz.phase() {
            Phase::Asking => {},
            Phase::Rejecting => {
                if self.quiz.cross_visible() {
                    world.push(&self.cross);
                }
            },
            Phase::GameOver => world.push(&self.game_over),
            Phase::Won => world.push(&self.win),
        }
        let mut overlays: Vec<&dyn OverlayLayer> = Vec::new();
        if self.quiz.phase() != Phase::Won {
            overlays.push(input);
        }
        presentation.render(world.as_slice(), overlays.as_slice(), framebuffer);
    }
}

} // verus!
