//! The math-quiz state machine: one question, a retry loop, and a win.
//!
//! Pure and frame-driven: the presenter pumps [`Quiz::submit`] on Enter and
//! [`Quiz::advance`] every frame, then reads [`Quiz::phase`] and
//! [`Quiz::cross_visible`] to pick which layers to draw.

use vstd::prelude::*;

use crate::chars::{parse_i64, parsed_i64, str_eq, trim, trimmed};
use crate::config::{FlashConfig, QuizConfig};

verus! {

/// The result of grading a submitted answer.
#[derive(Debug, Clone, Copy, PartialEq, Eq, Structural)]
pub enum Outcome {
    Correct,
    Wrong,
}

/// The externally visible phase — what the presenter should show.
#[derive(Debug, Clone, Copy, PartialEq, Eq, Structural)]
pub enum Phase {
    /// Waiting for input; the question shows in the field.
    Asking,
    /// A wrong answer is being rejected; the cross is blinking.
    Rejecting,
    /// The game-over sign is lingering before the retry.
    GameOver,
    /// The answer was correct; the win banner plays. Terminal.
    Won,
}

/// Whether `answer` satisfies `expected`: both trimmed of white space, compared
/// as integers when both parse as `i64`, else as text.
pub open spec fn spec_accepts(expected: Seq<char>, answer: Seq<char>) -> bool {
    let a = trimmed(answer);
    let e = trimmed(expected);
    match (parsed_i64(a), parsed_i64(e)) {
        (Some(x), Some(y)) => x == y,
        _ => a == e,
    }
}

/// A question and the answer that satisfies it.
#[derive(Debug, Clone)]
pub struct Question {
    prompt: String,
    expected: String,
}

impl Question {
    pub closed spec fn spec_prompt(self) -> Seq<char> {
        self.prompt@
    }

    pub closed spec fn spec_expected(self) -> Seq<char> {
        self.expected@
    }

    /// A question whose `prompt` is shown and whose `expected` answer wins.
    pub fn new(prompt: &str, expected: &str) -> (q: Self)
        ensures
            q.spec_prompt() == prompt@,
            q.spec_expected() == expected@,
    {
        Question { prompt: prompt.to_owned(), expected: expected.to_owned() }
    }

    pub fn prompt(&self) -> (p: &str)
        ensures
            p@ == self.spec_prompt(),
    {
        self.prompt.as_str()
    }

    /// Whether `answer` satisfies the question: surrounding white space is
    /// ignored; when both sides parse as integers they compare numerically
    /// (so `"012"` matches `"12"`), otherwise as trimmed text.
    pub fn accepts(&self, answer: &str) -> (b: bool)
        ensures
            b == spec_accepts(self.spec_expected(), answer@),
    {
        let a = trim(answer);
        let e = trim(self.expected.as_str());
        match (parse_i64(a), parse_i64(e)) {
            (Some(x), Some(y)) => x == y,
            _ => str_eq(a, e),
        }
    }
}

/// Internal state: the phase plus the frame counters that drive the blink and
/// the game-over linger.
#[derive(Debug, Clone, Copy, PartialEq, Eq, Structural)]
enum State {
    Asking,
    Rejecting { frame: u32 },
    GameOver { frame: u32 },
    Won,
}

/// One frame of the quiz, over `(phase, frame counter)`: the blink runs
/// `total` frames, then the game-over sign `linger` frames, then the question
/// returns; asking and won stand still.
pub open spec fn spec_step(phase: Phase, frame: u32, total: int, linger: int) -> (Phase, u32) {
    match phase {
        Phase::Rejecting => if frame + 1 >= total {
            (Phase::GameOver, 0u32)
        } else {
            (Phase::Rejecting, (frame + 1) as u32)
        },
        Phase::GameOver => if frame + 1 >= linger {
            (Phase::Asking, 0u32)
        } else {
            (Phase::GameOver, (frame + 1) as u32)
        },
        _ => (phase, frame),
    }
}

/// `n` frames of [`spec_step`].
pub open spec fn spec_steps(phase: Phase, frame: u32, total: int, linger: int, n: nat) -> (Phase, u32)
    decreases n,
{
    if n == 0 {
        (phase, frame)
    } else {
        let (p, f) = spec_step(phase, frame, total, linger);
        spec_steps(p, f, total, linger, (n - 1) as nat)
    }
}

/// The quiz rules: grade answers, blink on a miss, linger on game-over, then
/// loop back to the question; settle on a win.
#[derive(Debug, Clone)]
pub struct Quiz {
    question: Question,
    flash: FlashConfig,
    game_over_frames: u32,
    state: State,
}

impl Quiz {
    pub closed spec fn spec_question(self) -> Question {
        self.question
    }

    pub closed spec fn spec_flash(self) -> FlashConfig {
        self.flash
    }

    pub closed spec fn spec_game_over_frames(self) -> u32 {
        self.game_over_frames
    }

    /// The current phase.
    pub closed spec fn spec_phase(self) -> Phase {
        match self.state {
            State::Asking => Phase::Asking,
            State::Rejecting { .. } => Phase::Rejecting,
            State::GameOver { .. } => Phase::GameOver,
            State::Won => Phase::Won,
        }
    }

    /// The frame counter of the current phase (0 where it keeps none).
    pub closed spec fn spec_frame(self) -> u32 {
        match self.state {
            State::Rejecting { frame } => frame,
            State::GameOver { frame } => frame,
            _ => 0,
        }
    }

    /// The counters stay below their phase's length (or at 0 for an empty
    /// phase), so stepping them never overflows.
    pub closed spec fn wf(self) -> bool {
        match self.state {
            State::Rejecting { frame } => frame == 0 || frame < self.flash.spec_total(),
            State::GameOver { frame } => frame == 0 || frame < self.game_over_frames,
            State::Asking => true,
            State::Won => true,
        }
    }

    /// Build from parts: the `question`, the cross `flash` timing, and how many
    /// frames the game-over sign lingers before the retry.
    pub fn new(question: Question, flash: FlashConfig, game_over_frames: u32) -> (q: Self)
        ensures
            q.wf(),
            q.spec_question() == question,
            q.spec_flash() == flash,
            q.spec_game_over_frames() == game_over_frames,
            q.spec_phase() == Phase::Asking,
    {
        Quiz { question, flash, game_over_frames, state: State::Asking }
    }

    /// Build straight from a [`QuizConfig`].
    pub fn from_config(config: &QuizConfig) -> (q: Self)
        ensures
            q.wf(),
            q.spec_question().spec_prompt() == config.question@,
            q.spec_question().spec_expected() == config.expected@,
            q.spec_flash() == config.flash,
            q.spec_game_over_frames() == config.game_over_frames,
            q.spec_phase() == Phase::Asking,
    {
        Quiz::new(
            Question::new(config.question.as_str(), config.expected.as_str()),
            config.flash,
            config.game_over_frames,
        )
    }

    /// The prompt to show in the input field.
    pub fn prompt(&self) -> (p: &str)
        ensures
            p@ == self.spec_question().spec_prompt(),
    {
        self.question.prompt()
    }

    /// The current presentation phase.
    pub fn phase(&self) -> (p: Phase)
        ensures
            p == self.spec_phase(),
    {
        match self.state {
            State::Asking => Phase::Asking,
            State::Rejecting { .. } => Phase::Rejecting,
            State::GameOver { .. } => Phase::GameOver,
            State::Won => Phase::Won,
        }
    }

    /// Whether the quiz is accepting input.
    pub fn is_asking(&self) -> (b: bool)
        ensures
            b == (self.spec_phase() == Phase::Asking),
    {
        match self.state {
            State::Asking => true,
            _ => false,
        }
    }

    /// Whether the reject cross is visible this frame (only while rejecting).
    pub fn cross_visible(&self) -> (b: bool)
        requires
            self.spec_flash().on_frames + self.spec_flash().off_frames <= u32::MAX,
        ensures
            b == (self.spec_phase() == Phase::Rejecting && self.spec_flash().spec_visible(
                self.spec_frame(),
            )),
    {
        match self.state {
            State::Rejecting { frame } => self.flash.visible_at(frame),
            _ => false,
        }
    }

    /// Grade `answer`. Only acts while asking: a correct answer settles on
    /// [`Phase::Won`], a wrong one starts the blink. `None` if not asking.
    pub fn submit(&mut self, answer: &str) -> (r: Option<Outcome>)
        requires
            old(self).wf(),
        ensures
            final(self).wf(),
            final(self).spec_question() == old(self).spec_question(),
            final(self).spec_flash() == old(self).spec_flash(),
            final(self).spec_game_over_frames() == old(self).spec_game_over_frames(),
            old(self).spec_phase() != Phase::Asking ==> r is None && final(self).spec_phase()
                == old(self).spec_phase() && final(self).spec_frame() == old(self).spec_frame(),
            old(self).spec_phase() == Phase::Asking ==> if spec_accepts(
                old(self).spec_question().spec_expected(),
                answer@,
            ) {
                r == Some(Outcome::Correct) && final(self).spec_phase() == Phase::Won
            } else {
                r == Some(Outcome::Wrong) && final(self).spec_phase() == Phase::Rejecting
                    && final(self).spec_frame() == 0
            },
    {
        if !self.is_asking() {
            return None;
        }
        if self.question.accepts(answer) {
            self.state = State::Won;
            Some(Outcome::Correct)
        } else {
            self.state = State::Rejecting { frame: 0 };
            Some(Outcome::Wrong)
        }
    }

    /// Advance one frame, driving the blink then the game-over linger and
    /// finally looping back to the question. A no-op while asking or won.
    pub fn advance(&mut self)
        requires
            old(self).wf(),
            old(self).spec_flash().on_frames + old(self).spec_flash().off_frames <= u32::MAX,
            old(self).spec_flash().spec_total() <= u32::MAX,
        ensures
            final(self).wf(),
            final(self).spec_question() == old(self).spec_question(),
            final(self).spec_flash() == old(self).spec_flash(),
            final(self).spec_game_over_frames() == old(self).spec_game_over_frames(),
            (final(self).spec_phase(), final(self).spec_frame()) == spec_step(
                old(self).spec_phase(),
                old(self).spec_frame(),
                old(self).spec_flash().spec_total(),
                old(self).spec_game_over_frames() as int,
            ),
    {
        let total = self.flash.total_frames();
        self.state = match self.state {
            State::Rejecting { frame } => {
                let next = frame + 1;
                if next >= total {
                    State::GameOver { frame: 0 }
                } else {
                    State::Rejecting { frame: next }
                }
            },
            State::GameOver { frame } => {
                let next = frame + 1;
                if next >= self.game_over_frames {
                    State::Asking
                } else {
                    State::GameOver { frame: next }
                }
            },
            other => other,
        };
    }
}

/// A miss runs its course: from the first rejecting frame, `total` frames of
/// blinking (at least one) reach the game-over sign, and `linger` more
/// (at least one) bring the question back.
pub proof fn law_a_miss_returns_to_the_question(total: int, linger: int)
    requires
        1 <= total <= u32::MAX,
        1 <= linger <= u32::MAX,
    ensures
        spec_steps(Phase::Rejecting, 0, total, linger, total as nat) == (Phase::GameOver, 0u32),
        spec_steps(Phase::Rejecting, 0, total, linger, (total + linger) as nat) == (Phase::Asking, 0u32),
{
    lemma_rejecting_runs(total, linger, 0);
    lemma_steps_split(Phase::Rejecting, 0, total, linger, total as nat, linger as nat);
    lemma_game_over_runs(total, linger, 0);
}

/// From rejecting frame `f`, `total - f` frames reach the game-over sign.
proof fn lemma_rejecting_runs(total: int, linger: int, f: u32)
    requires
        1 <= total <= u32::MAX,
        f < total,
    ensures
        spec_steps(Phase::Rejecting, f, total, linger, (total - f) as nat) == (Phase::GameOver, 0u32),
    decreases total - f,
{
    let n = (total - f) as nat;
    if f + 1 < total {
        lemma_rejecting_runs(total, linger, (f + 1) as u32);
        assert(spec_step(Phase::Rejecting, f, total, linger) == (Phase::Rejecting, (f + 1) as u32));
        assert((n - 1) as nat == (total - (f + 1)) as nat);
    } else {
        assert(spec_step(Phase::Rejecting, f, total, linger) == (Phase::GameOver, 0u32));
        assert(n == 1);
        assert(spec_steps(Phase::GameOver, 0u32, total, linger, 0) == (Phase::GameOver, 0u32));
    }
}

/// From game-over frame `f`, `linger - f` frames bring the question back.
proof fn lemma_game_over_runs(total: int, linger: int, f: u32)
    requires
        1 <= linger <= u32::MAX,
        f < linger,
    ensures
        spec_steps(Phase::GameOver, f, total, linger, (linger - f) as nat) == (Phase::Asking, 0u32),
    decreases linger - f,
{
    let n = (linger - f) as nat;
    if f + 1 < linger {
        lemma_game_over_runs(total, linger, (f + 1) as u32);
        assert(spec_step(Phase::GameOver, f, total, linger) == (Phase::GameOver, (f + 1) as u32));
        assert((n - 1) as nat == (linger - (f + 1)) as nat);
    } else {
        assert(spec_step(Phase::GameOver, f, total, linger) == (Phase::Asking, 0u32));
        assert(n == 1);
        assert(spec_steps(Phase::Asking, 0u32, total, linger, 0) == (Phase::Asking, 0u32));
    }
}

/// `a + b` steps are `a` steps then `b` steps.
proof fn lemma_steps_split(phase: Phase, frame: u32, total: int, linger: int, a: nat, b: nat)
    ensures
        spec_steps(phase, frame, total, linger, a + b) == ({
            let (p, f) = spec_steps(phase, frame, total, linger, a);
            spec_steps(p, f, total, linger, b)
        }),
    decreases a,
{
    if a > 0 {
        let (p, f) = spec_step(phase, frame, total, linger);
        lemma_steps_split(p, f, total, linger, (a - 1) as nat, b);
        assert((a + b - 1) as nat == ((a - 1) as nat + b) as nat);
    }
}

/// A win is final: no frame leaves it.
pub proof fn law_won_is_terminal(frame: u32, total: int, linger: int, n: nat)
    ensures
        spec_steps(Phase::Won, frame, total, linger, n) == (Phase::Won, frame),
    decreases n,
{
    if n > 0 {
        law_won_is_terminal(frame, total, linger, (n - 1) as nat);
    }
}

/// A miss runs frame by frame: `k` frames after a wrong answer the quiz is on
/// blink frame `k` while `k < total`, then on game-over frame `k - total`
/// while `k < total + linger`, and from then on back at the question. So the
/// cross shows on frame `k` exactly when the blink shows it there.
pub proof fn law_a_miss_runs_frame_by_frame(total: int, linger: int, k: nat)
    requires
        1 <= total <= u32::MAX,
        1 <= linger <= u32::MAX,
    ensures
        spec_steps(Phase::Rejecting, 0, total, linger, k) == if k < total {
            (Phase::Rejecting, k as u32)
        } else if k < total + linger {
            (Phase::GameOver, (k - total) as u32)
        } else {
            (Phase::Asking, 0u32)
        },
{
    if k < total {
        lemma_rejecting_prefix(total, linger, k);
    } else if k < total + linger {
        lemma_rejecting_runs(total, linger, 0);
        lemma_steps_split(Phase::Rejecting, 0, total, linger, total as nat, (k - total) as nat);
        lemma_game_over_prefix(total, linger, (k - total) as nat);
        assert(k == total as nat + (k - total) as nat);
    } else {
        law_a_miss_returns_to_the_question(total, linger);
        lemma_steps_split(
            Phase::Rejecting,
            0,
            total,
            linger,
            (total + linger) as nat,
            (k - total - linger) as nat,
        );
        lemma_asking_stays(total, linger, (k - total - linger) as nat);
        assert(k == (total + linger) as nat + (k - total - linger) as nat);
    }
}

/// The first `k < total` blink frames count up from 0.
proof fn lemma_rejecting_prefix(total: int, linger: int, k: nat)
    requires
        1 <= total <= u32::MAX,
        k < total,
    ensures
        spec_steps(Phase::Rejecting, 0, total, linger, k) == (Phase::Rejecting, k as u32),
    decreases k,
{
    if k > 0 {
        lemma_rejecting_prefix(total, linger, (k - 1) as nat);
        lemma_steps_split(Phase::Rejecting, 0, total, linger, (k - 1) as nat, 1);
        assert(spec_step(Phase::Rejecting, (k - 1) as u32, total, linger) == (
            Phase::Rejecting,
            k as u32,
        ));
        assert(spec_steps(Phase::Rejecting, k as u32, total, linger, 0) == (
            Phase::Rejecting,
            k as u32,
        ));
        assert((k - 1) as nat + 1 == k);
    }
}

/// The first `j < linger` game-over frames count up from 0.
proof fn lemma_game_over_prefix(total: int, linger: int, j: nat)
    requires
        1 <= linger <= u32::MAX,
        j < linger,
    ensures
        spec_steps(Phase::GameOver, 0, total, linger, j) == (Phase::GameOver, j as u32),
    decreases j,
{
    if j > 0 {
        lemma_game_over_prefix(total, linger, (j - 1) as nat);
        lemma_steps_split(Phase::GameOver, 0, total, linger, (j - 1) as nat, 1);
        assert(spec_step(Phase::GameOver, (j - 1) as u32, total, linger) == (
            Phase::GameOver,
            j as u32,
        ));
        assert(spec_steps(Phase::GameOver, j as u32, total, linger, 0) == (
            Phase::GameOver,
            j as u32,
        ));
        assert((j - 1) as nat + 1 == j);
    }
}

/// Asking stands still.
proof fn lemma_asking_stays(total: int, linger: int, n: nat)
    ensures
        spec_steps(Phase::Asking, 0, total, linger, n) == (Phase::Asking, 0u32),
    decreases n,
{
    if n > 0 {
        lemma_asking_stays(total, linger, (n - 1) as nat);
    }
}

/// Law: an answer that reads the same as the expected one once surrounding
/// white space is trimmed is always accepted; where either side is not an
/// `i64` numeral, acceptance is exactly that equality of trimmed texts, and
/// where both are numerals it is equality of their values (so `"012"`
/// answers `"12"`).
pub proof fn law_matching_text_is_accepted(expected: Seq<char>, answer: Seq<char>)
    ensures
        trimmed(answer) == trimmed(expected) ==> spec_accepts(expected, answer),
        parsed_i64(trimmed(answer)) is None || parsed_i64(trimmed(expected)) is None ==> (
        spec_accepts(expected, answer) <==> trimmed(answer) == trimmed(expected)),
        parsed_i64(trimmed(answer)) matches Some(x) ==> (parsed_i64(trimmed(expected)) matches Some(
            y,
        ) ==> (spec_accepts(expected, answer) <==> x == y)),
{
}

} // verus!
