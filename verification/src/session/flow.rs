//! The decisions of the session screens, as state machines a host drives.
//!
//! Each screen of a session answers input and frame ticks with what should
//! happen next: a one-shot exit (a prompt confirmed, a card timed out, a
//! menu choice made), or a step of a challenge (grade the answer, time it
//! out, resolve the feedback beat). The screens' banners and the game's own
//! routing stay with the host; these machines own the waiting, the clocks,
//! and the rule that every exit fires at most once.

use vstd::prelude::*;

use crate::chars::{char_utf8_len, control, is_control};
use crate::input::InputLine;
use crate::ui::{Countdown, CountdownConfig, UiInput};

verus! {

/// A countdown's next state after one frame: one frame less, resting at 0.
pub open spec fn stepped_left(left: u32) -> u32 {
    if left == 0 {
        0
    } else {
        (left - 1) as u32
    }
}

// ---------------------------------------------------------------- prompt

/// Why a static prompt card is leaving.
#[derive(Debug, Clone, Copy, PartialEq, Eq, Structural)]
pub enum PromptExit {
    /// The player confirmed.
    Confirmed,
    /// The player cancelled.
    Cancelled,
    /// The idle trigger ran out with no input to push it back.
    Idled,
}

/// A prompt card held until the player confirms or cancels, or an optional
/// idle trigger runs out; its exit fires once.
#[derive(Debug, Clone, Copy)]
pub struct PromptFlow {
    idle: Option<Countdown>,
    fired: bool,
}

impl PromptFlow {
    pub closed spec fn spec_idle(self) -> Option<Countdown> {
        self.idle
    }

    /// Whether the exit has fired.
    pub closed spec fn spec_fired(self) -> bool {
        self.fired
    }

    pub closed spec fn wf(self) -> bool {
        self.idle matches Some(c) ==> c.wf()
    }

    /// A prompt with no idle trigger, its exit still to fire.
    pub fn new() -> (p: Self)
        ensures
            p.wf(),
            p.spec_idle() is None,
            !p.spec_fired(),
    {
        PromptFlow { idle: None, fired: false }
    }

    /// Arm the idle trigger: any input pushes it back to its full length, and
    /// running out untouched exits as [`PromptExit::Idled`].
    pub fn with_idle(self, idle: Countdown) -> (p: Self)
        requires
            idle.wf(),
        ensures
            p.wf(),
            p.spec_idle() == Some(idle),
            p.spec_fired() == self.spec_fired(),
    {
        PromptFlow { idle: Some(idle), fired: self.fired }
    }

    /// Answer one input: any input re-arms the idle trigger; Confirm and
    /// Cancel exit, unless the exit has already fired.
    pub fn handle(&mut self, input: UiInput) -> (exit: Option<PromptExit>)
        requires
            old(self).wf(),
        ensures
            final(self).wf(),
            exit == if old(self).spec_fired() {
                None
            } else {
                match input {
                    UiInput::Confirm => Some(PromptExit::Confirmed),
                    UiInput::Cancel => Some(PromptExit::Cancelled),
                    _ => None,
                }
            },
            final(self).spec_fired() == (old(self).spec_fired() || exit is Some),
            final(self).spec_idle() is Some == old(self).spec_idle() is Some,
            final(self).spec_idle() matches Some(c) ==> c.spec_frames() == old(self).spec_idle()->0.spec_frames() && c.spec_left() == c.spec_frames(),
    {
        match &mut self.idle {
            Some(c) => c.reset(),
            None => {},
        }
        let why = match input {
            UiInput::Confirm => Some(PromptExit::Confirmed),
            UiInput::Cancel => Some(PromptExit::Cancelled),
            _ => None,
        };
        self.fire(why)
    }

    /// Run one frame of the idle trigger; its running out exits as
    /// [`PromptExit::Idled`], unless the exit has already fired.
    pub fn tick(&mut self) -> (exit: Option<PromptExit>)
        requires
            old(self).wf(),
        ensures
            final(self).wf(),
            final(self).spec_idle() is Some == old(self).spec_idle() is Some,
            final(self).spec_idle() matches Some(c) ==> c.spec_frames() == old(self).spec_idle()->0.spec_frames() && c.spec_left() == stepped_left(
                old(self).spec_idle()->0.spec_left(),
            ),
            exit == if !old(self).spec_fired() && old(self).spec_idle() is Some && stepped_left(
                old(self).spec_idle()->0.spec_left(),
            ) == 0 {
                Some(PromptExit::Idled)
            } else {
                None
            },
            final(self).spec_fired() == (old(self).spec_fired() || exit is Some),
    {
        let idled = match &mut self.idle {
            Some(c) => {
                c.advance();
                c.is_expired()
            },
            None => false,
        };
        if idled {
            self.fire(Some(PromptExit::Idled))
        } else {
            None
        }
    }

    fn fire(&mut self, why: Option<PromptExit>) -> (exit: Option<PromptExit>)
        ensures
            final(self).spec_idle() == old(self).spec_idle(),
            exit == if old(self).spec_fired() {
                None
            } else {
                why
            },
            final(self).spec_fired() == (old(self).spec_fired() || exit is Some),
    {
        if self.fired {
            None
        } else {
            if why.is_some() {
                self.fired = true;
            }
            why
        }
    }
}

// ------------------------------------------------------------ timed card

/// Why a timed card is leaving.
#[derive(Debug, Clone, Copy, PartialEq, Eq, Structural)]
pub enum TimedCardExit {
    /// The player confirmed before the countdown ran out.
    Confirmed,
    /// The countdown ran out.
    Expired,
    /// The player cancelled.
    Cancelled,
}

/// Why a continue prompt is leaving.
#[derive(Debug, Clone, Copy, PartialEq, Eq, Structural)]
pub enum ContinueExit {
    /// The player took the continue.
    Continued,
    /// The countdown ran out: no continue.
    Declined,
    /// The player cancelled.
    Cancelled,
}

/// A continue prompt is a timed card: a confirm continues, running out
/// declines, a cancel cancels.
pub fn continue_exit(exit: TimedCardExit) -> (c: ContinueExit)
    ensures
        c == match exit {
            TimedCardExit::Confirmed => ContinueExit::Continued,
            TimedCardExit::Expired => ContinueExit::Declined,
            TimedCardExit::Cancelled => ContinueExit::Cancelled,
        },
{
    match exit {
        TimedCardExit::Confirmed => ContinueExit::Continued,
        TimedCardExit::Expired => ContinueExit::Declined,
        TimedCardExit::Cancelled => ContinueExit::Cancelled,
    }
}

/// Whole seconds still to show for `frames` frames at `per_second` frames a
/// second, a part second counting as a whole one.
pub open spec fn seconds_of(frames: u32, per_second: u32) -> u32 {
    if frames % per_second == 0 {
        frames / per_second
    } else {
        (frames / per_second + 1) as u32
    }
}

/// A card held for a countdown, with an optional seconds readout; its exit
/// fires once.
#[derive(Debug, Clone, Copy)]
pub struct TimedCardFlow {
    countdown: Countdown,
    fired: bool,
    per_second: u32,
    shown: Option<u32>,
}

impl TimedCardFlow {
    pub closed spec fn spec_countdown(self) -> Countdown {
        self.countdown
    }

    pub closed spec fn spec_fired(self) -> bool {
        self.fired
    }

    /// Frames a second of the seconds readout (0: no readout).
    pub closed spec fn spec_per_second(self) -> u32 {
        self.per_second
    }

    /// The seconds the readout shows, once a frame has run.
    pub closed spec fn spec_shown(self) -> Option<u32> {
        self.shown
    }

    pub closed spec fn wf(self) -> bool {
        self.countdown.wf()
    }

    /// A card held for `countdown`, its exit still to fire, with no readout.
    pub fn new(countdown: Countdown) -> (t: Self)
        requires
            countdown.wf(),
        ensures
            t.wf(),
            t.spec_countdown() == countdown,
            !t.spec_fired(),
            t.spec_per_second() == 0,
            t.spec_shown() is None,
    {
        TimedCardFlow { countdown, fired: false, per_second: 0, shown: None }
    }

    /// Add a readout of the whole seconds left, at `frames_per_second`; it
    /// shows from the first frame on.
    pub fn with_seconds(self, frames_per_second: u32) -> (t: Self)
        requires
            frames_per_second > 0,
        ensures
            t.wf() == self.wf(),
            t.spec_countdown() == self.spec_countdown(),
            t.spec_fired() == self.spec_fired(),
            t.spec_per_second() == frames_per_second,
            t.spec_shown() is None,
    {
        TimedCardFlow { per_second: frames_per_second, shown: None, ..self }
    }

    /// The seconds the readout shows: `None` before the first frame, or with
    /// no readout.
    pub fn seconds_shown(&self) -> (s: Option<u32>)
        ensures
            s == self.spec_shown(),
    {
        self.shown
    }

    /// Confirm and Cancel exit, unless the exit has already fired.
    pub fn handle(&mut self, input: UiInput) -> (exit: Option<TimedCardExit>)
        ensures
            final(self).spec_countdown() == old(self).spec_countdown(),
            final(self).spec_per_second() == old(self).spec_per_second(),
            final(self).spec_shown() == old(self).spec_shown(),
            exit == if old(self).spec_fired() {
                None
            } else {
                match input {
                    UiInput::Confirm => Some(TimedCardExit::Confirmed),
                    UiInput::Cancel => Some(TimedCardExit::Cancelled),
                    _ => None,
                }
            },
            final(self).spec_fired() == (old(self).spec_fired() || exit is Some),
    {
        let why = match input {
            UiInput::Confirm => Some(TimedCardExit::Confirmed),
            UiInput::Cancel => Some(TimedCardExit::Cancelled),
            _ => None,
        };
        if self.fired || why.is_none() {
            None
        } else {
            self.fired = true;
            why
        }
    }

    /// Run one frame of the countdown; once it has run out the card exits as
    /// [`TimedCardExit::Expired`], unless the exit has already fired.
    pub fn tick(&mut self) -> (exit: Option<TimedCardExit>)
        requires
            old(self).wf(),
        ensures
            final(self).wf(),
            final(self).spec_countdown().spec_frames() == old(self).spec_countdown().spec_frames(),
            final(self).spec_countdown().spec_left() == stepped_left(
                old(self).spec_countdown().spec_left(),
            ),
            final(self).spec_per_second() == old(self).spec_per_second(),
            final(self).spec_shown() == if old(self).spec_per_second() > 0 {
                Some(
                    seconds_of(
                        stepped_left(old(self).spec_countdown().spec_left()),
                        old(self).spec_per_second(),
                    ),
                )
            } else {
                old(self).spec_shown()
            },
            exit == if !old(self).spec_fired() && stepped_left(
                old(self).spec_countdown().spec_left(),
            ) == 0 {
                Some(TimedCardExit::Expired)
            } else {
                None
            },
            final(self).spec_fired() == (old(self).spec_fired() || exit is Some),
    {
        self.countdown.advance();
        if self.per_second > 0 {
            let left = self.countdown.remaining();
            let whole = left / self.per_second;
            self.shown = Some(
                if left % self.per_second == 0 {
                    whole
                } else {
                    whole + 1
                },
            );
        }
        if self.countdown.is_expired() && !self.fired {
            self.fired = true;
            Some(TimedCardExit::Expired)
        } else {
            None
        }
    }
}

// ------------------------------------------------------------ text entry

/// Why a text-entry screen is leaving.
#[derive(Debug, Clone, PartialEq, Eq)]
pub enum TextEntryExit {
    /// The player submitted this text.
    Submitted(String),
    /// The player cancelled.
    Cancelled,
}

/// A text-entry screen over a shared input line; its exit fires once.
#[derive(Debug, Clone, Copy)]
pub struct TextEntryFlow {
    fired: bool,
}

impl TextEntryFlow {
    pub closed spec fn spec_fired(self) -> bool {
        self.fired
    }

    /// An entry whose exit is still to fire.
    pub fn new() -> (t: Self)
        ensures
            !t.spec_fired(),
    {
        TextEntryFlow { fired: false }
    }

    /// Answer one input against `line`: Confirm takes the line's text and
    /// clears it, and submits that text; Cancel cancels and leaves the line;
    /// any other input edits the line (see [`edit_line`]). An exit already
    /// fired does not fire again.
    pub fn handle(&mut self, input: UiInput, line: &mut InputLine) -> (exit: Option<TextEntryExit>)
        requires
            old(line).wf(),
            old(line).spec_cursor() + 4 <= usize::MAX,
        ensures
            final(line).wf(),
            final(self).spec_fired() == (old(self).spec_fired() || exit is Some),
            match input {
                UiInput::Confirm => {
                    &&& final(line).spec_text() == Seq::<char>::empty()
                    &&& final(line).spec_cursor() == 0
                    &&& if old(self).spec_fired() {
                        exit is None
                    } else {
                        exit matches Some(TextEntryExit::Submitted(t)) && t@ == old(line).spec_text()
                    }
                },
                UiInput::Cancel => {
                    &&& *final(line) == *old(line)
                    &&& exit == if old(self).spec_fired() {
                        None
                    } else {
                        Some(TextEntryExit::Cancelled)
                    }
                },
                _ => exit is None && edits_line(input, *old(line), *final(line)),
            },
    {
        match input {
            UiInput::Confirm => {
                let text = line.text().to_owned();
                line.clear();
                if self.fired {
                    None
                } else {
                    self.fired = true;
                    Some(TextEntryExit::Submitted(text))
                }
            },
            UiInput::Cancel => {
                if self.fired {
                    None
                } else {
                    self.fired = true;
                    Some(TextEntryExit::Cancelled)
                }
            },
            _ => {
                edit_line(input, line);
                None
            },
        }
    }
}

/// What one editing input does to a line: a typed character that is not a
/// control character goes in at the caret, Backspace erases the character
/// before the caret (nothing at the start), and any other input leaves the
/// line as it was.
pub open spec fn edits_line(input: UiInput, before: InputLine, after: InputLine) -> bool {
    match input {
        UiInput::Char(c) => if is_control(c) {
            after == before
        } else {
            &&& after.spec_text() == before.spec_text().insert(before.spec_at(), c)
            &&& after.spec_at() == before.spec_at() + 1
            &&& after.spec_cursor() == before.spec_cursor() + char_utf8_len(c)
        },
        UiInput::Backspace => if before.spec_at() > 0 {
            &&& after.spec_text() == before.spec_text().remove(before.spec_at() - 1)
            &&& after.spec_at() == before.spec_at() - 1
        } else {
            &&& after.spec_text() == before.spec_text()
            &&& after.spec_cursor() == before.spec_cursor()
        },
        _ => after == before,
    }
}

/// Apply one editing input to `line`.
pub fn edit_line(input: UiInput, line: &mut InputLine)
    requires
        old(line).wf(),
        old(line).spec_cursor() + 4 <= usize::MAX,
    ensures
        final(line).wf(),
        edits_line(input, *old(line), *final(line)),
{
    match input {
        UiInput::Char(c) => {
            if !control(c) {
                line.insert(c);
            }
        },
        UiInput::Backspace => {
            line.backspace();
        },
        _ => {},
    }
}

// ---------------------------------------------------------------- choice

/// Where an arrow moves a menu's highlight over `count` options: Up one
/// back, Down one on, each held at its end; any other input leaves it.
pub open spec fn moved_highlight(selected: usize, count: usize, input: UiInput) -> usize {
    match input {
        UiInput::Up => if selected > 0 {
            (selected - 1) as usize
        } else {
            0
        },
        UiInput::Down => if selected + 1 < count {
            (selected + 1) as usize
        } else {
            selected
        },
        _ => selected,
    }
}

/// What a menu answers: a choice made, or the menu cancelled.
#[derive(Debug, Clone, Copy, PartialEq, Eq, Structural)]
pub enum ChoiceExit {
    /// The highlighted option was chosen.
    Chosen(usize),
    /// The menu was cancelled.
    Cancelled,
}

/// A menu of `count` options with a highlight: the arrows move it (held at
/// the ends), Confirm chooses it, Cancel cancels; whichever of the two routes
/// fires first spends both.
#[derive(Debug, Clone, Copy)]
pub struct ChoiceFlow {
    count: usize,
    selected: usize,
    fired: bool,
}

impl ChoiceFlow {
    pub closed spec fn spec_count(self) -> usize {
        self.count
    }

    pub closed spec fn spec_selected(self) -> usize {
        self.selected
    }

    /// Whether the choice or the cancel has fired.
    pub closed spec fn spec_fired(self) -> bool {
        self.fired
    }

    /// The highlight is on an option (or at 0 for an empty menu).
    pub closed spec fn wf(self) -> bool {
        self.selected == 0 || self.selected < self.count
    }

    /// A menu of `count` options, the first highlighted.
    pub fn new(count: usize) -> (c: Self)
        ensures
            c.wf(),
            c.spec_count() == count,
            c.spec_selected() == 0,
            !c.spec_fired(),
    {
        ChoiceFlow { count, selected: 0, fired: false }
    }

    /// The highlighted option.
    pub fn highlighted(&self) -> (i: usize)
        ensures
            i == self.spec_selected(),
    {
        self.selected
    }

    /// Answer one input. Once a choice or a cancel has fired, neither fires
    /// again; an empty menu has nothing to choose.
    pub fn handle(&mut self, input: UiInput) -> (exit: Option<ChoiceExit>)
        requires
            old(self).wf(),
        ensures
            final(self).wf(),
            final(self).spec_count() == old(self).spec_count(),
            final(self).spec_selected() == moved_highlight(
                old(self).spec_selected(),
                old(self).spec_count(),
                input,
            ),
            exit == if old(self).spec_fired() {
                None
            } else {
                match input {
                    UiInput::Confirm => if old(self).spec_count() == 0 {
                        None
                    } else {
                        Some(ChoiceExit::Chosen(old(self).spec_selected()))
                    },
                    UiInput::Cancel => Some(ChoiceExit::Cancelled),
                    _ => None,
                }
            },
            final(self).spec_fired() == (old(self).spec_fired() || exit is Some),
    {
        match input {
            UiInput::Up => {
                if self.selected > 0 {
                    self.selected = self.selected - 1;
                }
                None
            },
            UiInput::Down => {
                if self.selected + 1 < self.count {
                    self.selected = self.selected + 1;
                }
                None
            },
            UiInput::Confirm => {
                if self.fired || self.count == 0 {
                    None
                } else {
                    self.fired = true;
                    Some(ChoiceExit::Chosen(self.selected))
                }
            },
            UiInput::Cancel => {
                if self.fired {
                    None
                } else {
                    self.fired = true;
                    Some(ChoiceExit::Cancelled)
                }
            },
            _ => None,
        }
    }
}

// ------------------------------------------------------------- challenge

/// A committed answer: the typed line's text, or the highlighted option.
#[derive(Debug, Clone, PartialEq, Eq)]
pub enum ChallengeAnswer {
    /// The text of the shared input line (which is cleared for the next one).
    Typed(String),
    /// The highlighted option of the choice list.
    Choice(usize),
}

/// What the host does after one input or one frame of a challenge.
#[derive(Debug, Clone, PartialEq, Eq)]
pub enum ChallengeStep {
    /// Nothing to do.
    Idle,
    /// Grade `answer`, committed with `time_left` frames still on the clock
    /// (`None` untimed), then start its feedback beat with
    /// [`ChallengeFlow::begin_feedback`].
    Grade { answer: ChallengeAnswer, time_left: Option<u32> },
    /// The clock ran out: grade the timed-out miss, then start its beat.
    TimeOut,
    /// The beat ended or was skipped: apply the graded attempt's route.
    Resolve,
    /// Route a cancel.
    Cancel,
}

/// The frames left on an optional clock.
pub open spec fn clock_left(clock: Option<Countdown>) -> Option<u32> {
    match clock {
        Some(c) => Some(c.spec_left()),
        None => None,
    }
}

/// The phase machine of a timed challenge. *Answering*: editing input goes
/// to the answer widget (a menu highlight, or the shared input line), the
/// optional clock runs, and Confirm commits the answer. *Feedback*: a beat
/// plays over the frozen challenge; editing is dead, the clock is frozen,
/// Confirm skips the wait, and the beat's end resolves the attempt once.
#[derive(Debug, Clone, Copy)]
pub struct ChallengeFlow {
    choices: Option<ChoiceFlow>,
    clock: Option<Countdown>,
    beat: Option<Countdown>,
}

impl ChallengeFlow {
    /// The menu of a multiple-choice problem (`None` when typed).
    pub closed spec fn spec_choices(self) -> Option<ChoiceFlow> {
        self.choices
    }

    /// The question clock (`None` when untimed).
    pub closed spec fn spec_clock(self) -> Option<Countdown> {
        self.clock
    }

    /// The running feedback beat: `Some` in the feedback phase.
    pub closed spec fn spec_beat(self) -> Option<Countdown> {
        self.beat
    }

    pub closed spec fn wf(self) -> bool {
        &&& self.choices matches Some(c) ==> c.wf()
        &&& self.clock matches Some(c) ==> c.wf()
        &&& self.beat matches Some(b) ==> b.wf()
    }

    /// The answering phase of a problem: a menu of `choices` options (or a
    /// typed answer), timed by `clock` (or untimed).
    pub fn new(choices: Option<usize>, clock: Option<Countdown>) -> (f: Self)
        requires
            clock matches Some(c) ==> c.wf(),
        ensures
            f.wf(),
            f.spec_choices() matches Some(c) ==> c.spec_selected() == 0 && !c.spec_fired(),
            f.spec_choices() is Some == choices is Some,
            choices matches Some(n) ==> f.spec_choices()->0.spec_count() == n,
            f.spec_clock() == clock,
            f.spec_beat() is None,
    {
        let menu = match choices {
            Some(n) => Some(ChoiceFlow::new(n)),
            None => None,
        };
        ChallengeFlow { choices: menu, clock, beat: None }
    }

    /// Pose the next problem on the same screen (after a resolution that
    /// stays): a fresh answer widget and clock, in the answering phase.
    pub fn ask(&mut self, choices: Option<usize>, clock: Option<Countdown>)
        requires
            clock matches Some(c) ==> c.wf(),
        ensures
            final(self).wf(),
            final(self).spec_choices() matches Some(c) ==> c.spec_selected() == 0
                && !c.spec_fired(),
            final(self).spec_choices() is Some == choices is Some,
            choices matches Some(n) ==> final(self).spec_choices()->0.spec_count() == n,
            final(self).spec_clock() == clock,
            final(self).spec_beat() is None,
    {
        *self = ChallengeFlow::new(choices, clock);
    }

    /// Whether the feedback beat is running.
    pub fn in_feedback(&self) -> (b: bool)
        ensures
            b == self.spec_beat() is Some,
    {
        self.beat.is_some()
    }

    /// The highlighted option of a multiple-choice problem.
    pub fn highlighted(&self) -> (i: Option<usize>)
        ensures
            i == match self.spec_choices() {
                Some(c) => Some(c.spec_selected()),
                None => None,
            },
    {
        match &self.choices {
            Some(c) => Some(c.highlighted()),
            None => None,
        }
    }

    /// Start the feedback beat of a graded attempt.
    pub fn begin_feedback(&mut self, beat: Countdown)
        requires
            old(self).wf(),
            beat.wf(),
        ensures
            final(self).wf(),
            final(self).spec_beat() == Some(beat),
            final(self).spec_clock() == old(self).spec_clock(),
            final(self).spec_choices() == old(self).spec_choices(),
    {
        self.beat = Some(beat);
    }

    /// Answer one input; a typed answer reads and edits `line`.
    pub fn handle(&mut self, input: UiInput, line: &mut InputLine) -> (step: ChallengeStep)
        requires
            old(self).wf(),
            old(line).wf(),
            old(line).spec_cursor() + 4 <= usize::MAX,
        ensures
            final(self).wf(),
            final(line).wf(),
            final(self).spec_clock() == old(self).spec_clock(),
            old(self).spec_beat() is Some ==> {
                &&& *final(line) == *old(line)
                &&& final(self).spec_choices() == old(self).spec_choices()
                &&& match input {
                    UiInput::Confirm => step == ChallengeStep::Resolve && final(self).spec_beat() is None,
                    UiInput::Cancel => step == ChallengeStep::Cancel && final(self).spec_beat()
                        == old(self).spec_beat(),
                    _ => step == ChallengeStep::Idle && final(self).spec_beat() == old(self).spec_beat(),
                }
            },
            old(self).spec_beat() is None ==> {
                &&& final(self).spec_beat() is None
                &&& match input {
                    UiInput::Confirm => {
                        &&& final(self).spec_choices() == old(self).spec_choices()
                        &&& step matches ChallengeStep::Grade { answer, time_left }
                        &&& time_left == clock_left(old(self).spec_clock())
                        &&& match old(self).spec_choices() {
                            Some(c) => {
                                &&& answer == ChallengeAnswer::Choice(c.spec_selected())
                                &&& *final(line) == *old(line)
                            },
                            None => {
                                &&& answer matches ChallengeAnswer::Typed(t) && t@ == old(line).spec_text()
                                &&& final(line).spec_text() == Seq::<char>::empty()
                                &&& final(line).spec_cursor() == 0
                            },
                        }
                    },
                    UiInput::Cancel => {
                        &&& step == ChallengeStep::Cancel
                        &&& final(self).spec_choices() == old(self).spec_choices()
                        &&& *final(line) == *old(line)
                    },
                    _ => {
                        &&& step == ChallengeStep::Idle
                        &&& match old(self).spec_choices() {
                            Some(c) => {
                                &&& *final(line) == *old(line)
                                &&& final(self).spec_choices() matches Some(d)
                                &&& d.spec_count() == c.spec_count()
                                &&& d.spec_selected() == moved_highlight(
                                    c.spec_selected(),
                                    c.spec_count(),
                                    input,
                                )
                            },
                            None => {
                                &&& final(self).spec_choices() is None
                                &&& edits_line(input, *old(line), *final(line))
                            },
                        }
                    },
                }
            },
    {
        if self.beat.is_some() {
            return match input {
                UiInput::Confirm => {
                    self.beat = None;
                    ChallengeStep::Resolve
                },
                UiInput::Cancel => ChallengeStep::Cancel,
                _ => ChallengeStep::Idle,
            };
        }
        match input {
            UiInput::Confirm => {
                let answer = match &self.choices {
                    Some(c) => ChallengeAnswer::Choice(c.highlighted()),
                    None => {
                        let text = line.text().to_owned();
                        line.clear();
                        ChallengeAnswer::Typed(text)
                    },
                };
                let time_left = match &self.clock {
                    Some(c) => Some(c.remaining()),
                    None => None,
                };
                ChallengeStep::Grade { answer, time_left }
            },
            UiInput::Cancel => ChallengeStep::Cancel,
            other => {
                match &mut self.choices {
                    Some(c) => {
                        c.handle(other);
                    },
                    None => {
                        edit_line(other, line);
                    },
                }
                ChallengeStep::Idle
            },
        }
    }

    /// What one frame does: the beat, while it runs, takes the frame and
    /// freezes the clock, and its end resolves; otherwise the clock runs, and
    /// the frame that runs it out times the problem out.
    pub open spec fn tick_step(self) -> ChallengeStep {
        match self.spec_beat() {
            Some(b) => if stepped_left(b.spec_left()) == 0 {
                ChallengeStep::Resolve
            } else {
                ChallengeStep::Idle
            },
            None => match self.spec_clock() {
                Some(c) => if c.spec_left() == 1 {
                    ChallengeStep::TimeOut
                } else {
                    ChallengeStep::Idle
                },
                None => ChallengeStep::Idle,
            },
        }
    }

    /// Run one frame.
    pub fn tick(&mut self) -> (step: ChallengeStep)
        requires
            old(self).wf(),
        ensures
            final(self).wf(),
            step == old(self).tick_step(),
            final(self).spec_choices() == old(self).spec_choices(),
            old(self).spec_beat() matches Some(b) ==> {
                &&& final(self).spec_clock() == old(self).spec_clock()
                &&& if step == ChallengeStep::Resolve {
                    final(self).spec_beat() is None
                } else {
                    final(self).spec_beat() matches Some(n) && n.spec_frames() == b.spec_frames()
                        && n.spec_left() == stepped_left(b.spec_left())
                }
            },
            old(self).spec_beat() is None ==> {
                &&& final(self).spec_beat() is None
                &&& final(self).spec_clock() is Some == old(self).spec_clock() is Some
                &&& old(self).spec_clock() matches Some(c) ==> final(self).spec_clock()->0.spec_frames()
                    == c.spec_frames() && final(self).spec_clock()->0.spec_left() == stepped_left(
                    c.spec_left(),
                )
            },
    {
        if self.beat.is_some() {
            let mut b = self.beat.unwrap();
            b.advance();
            if b.is_expired() {
                self.beat = None;
                ChallengeStep::Resolve
            } else {
                self.beat = Some(b);
                ChallengeStep::Idle
            }
        } else {
            match &mut self.clock {
                Some(c) => {
                    if c.advance() {
                        ChallengeStep::TimeOut
                    } else {
                        ChallengeStep::Idle
                    }
                },
                None => ChallengeStep::Idle,
            }
        }
    }
}

/// The clock times a problem out at most once: the frame that times it out
/// runs it to zero, and a clock at zero never times out (nor does it move:
/// inputs and the beat leave the clock as it is, and only
/// [`ChallengeFlow::ask`] arms a new one).
pub proof fn law_the_clock_times_out_once(f: ChallengeFlow)
    requires
        f.wf(),
        f.spec_beat() is None,
    ensures
        f.tick_step() == ChallengeStep::TimeOut ==> f.spec_clock() is Some && stepped_left(
            f.spec_clock()->0.spec_left(),
        ) == 0,
        f.spec_clock() matches Some(c) ==> (c.spec_left() == 0 ==> f.tick_step()
            != ChallengeStep::TimeOut && stepped_left(c.spec_left()) == 0),
{
}

/// The beat resolves once: the frame or the Confirm that resolves it ends the
/// feedback phase, and with no beat running no frame resolves.
pub proof fn law_a_beat_resolves_once(f: ChallengeFlow)
    requires
        f.wf(),
        f.spec_beat() is None,
    ensures
        f.tick_step() != ChallengeStep::Resolve,
{
}

// ---------------------------------------------------------------- attract

/// The attract loop: cards shown in turn, each held for its own countdown,
/// turning to the next and wrapping past the last, until any input
/// dismisses the loop; the dismissal fires once, and a card running out only
/// turns the page.
#[derive(Debug, Clone)]
pub struct AttractFlow {
    holds: Vec<Countdown>,
    current: usize,
    dismissed: bool,
}

impl AttractFlow {
    /// Each card's hold.
    pub closed spec fn spec_holds(self) -> Seq<Countdown> {
        self.holds@
    }

    /// The card showing (0 for an empty loop).
    pub closed spec fn spec_current(self) -> usize {
        self.current
    }

    /// Whether the dismissal has fired.
    pub closed spec fn spec_dismissed(self) -> bool {
        self.dismissed
    }

    pub closed spec fn wf(self) -> bool {
        &&& forall|i: int| 0 <= i < self.holds@.len() ==> (#[trigger] self.holds@[i]).wf()
        &&& if self.holds@.len() == 0 {
            self.current == 0
        } else {
            self.current < self.holds@.len()
        }
    }

    /// A loop over cards held for `holds`, the first showing.
    pub fn new(holds: Vec<Countdown>) -> (a: Self)
        requires
            forall|i: int| 0 <= i < holds@.len() ==> (#[trigger] holds@[i]).wf(),
        ensures
            a.wf(),
            a.spec_holds() == holds@,
            a.spec_current() == 0,
            !a.spec_dismissed(),
    {
        AttractFlow { holds, current: 0, dismissed: false }
    }

    /// The card showing, or `None` for a loop with no cards.
    pub fn showing(&self) -> (i: Option<usize>)
        ensures
            i == if self.spec_holds().len() == 0 {
                None
            } else {
                Some(self.spec_current())
            },
    {
        if self.holds.len() == 0 {
            None
        } else {
            Some(self.current)
        }
    }

    /// Any input wakes the loop: `true` the first time only.
    pub fn handle(&mut self, input: UiInput) -> (woke: bool)
        ensures
            woke == !old(self).spec_dismissed(),
            final(self).spec_dismissed(),
            final(self).spec_holds() == old(self).spec_holds(),
            final(self).spec_current() == old(self).spec_current(),
    {
        let woke = !self.dismissed;
        self.dismissed = true;
        woke
    }

    /// Run one frame of the showing card's hold; when it runs out the card
    /// is re-armed for its next turn and the loop turns to the next card,
    /// wrapping past the last.
    pub fn tick(&mut self)
        requires
            old(self).wf(),
        ensures
            final(self).wf(),
            final(self).spec_dismissed() == old(self).spec_dismissed(),
            final(self).spec_holds().len() == old(self).spec_holds().len(),
            old(self).spec_holds().len() == 0 ==> *final(self) == *old(self),
            old(self).spec_holds().len() > 0 ==> {
                let cur = old(self).spec_current() as int;
                let card = old(self).spec_holds()[cur];
                let turned = stepped_left(card.spec_left()) == 0;
                &&& forall|i: int|
                    0 <= i < old(self).spec_holds().len() && i != cur ==> #[trigger] final(self).spec_holds()[i] == old(self).spec_holds()[i]
                &&& final(self).spec_holds()[cur].spec_frames() == card.spec_frames()
                &&& final(self).spec_holds()[cur].spec_left() == if turned {
                    card.spec_frames()
                } else {
                    stepped_left(card.spec_left())
                }
                &&& final(self).spec_current() == if turned {
                    (cur + 1) % (old(self).spec_holds().len() as int)
                } else {
                    cur
                }
            },
    {
        let n = self.holds.len();
        if n == 0 {
            return;
        }
        let cur = self.current;
        let mut card = self.holds[cur];
        card.advance();
        if card.is_expired() {
            card.reset();
            self.holds.set(cur, card);
            self.current = (cur + 1) % n;
        } else {
            self.holds.set(cur, card);
        }
    }
}

/// Attract-mode timing: how long the title sits idle before the rotation
/// begins (0: attract mode off), and how long each card holds.
#[derive(Debug, Clone, Copy, PartialEq, Eq, Structural)]
pub struct AttractConfig {
    pub idle: CountdownConfig,
    pub card: CountdownConfig,
}

/// Why an [`AttractConfig`] is refused.
#[derive(Debug, Clone, Copy, PartialEq, Eq, Structural)]
pub enum AttractConfigError {
    /// Attract mode is on but a card would hold for no frame.
    ZeroCardHold,
}

impl AttractConfig {
    /// The armed title-idle countdown, or `None` with attract mode off.
    pub fn idle_countdown(&self) -> (c: Option<Countdown>)
        ensures
            (self.idle.frames > 0) == c is Some,
            c matches Some(d) ==> d.wf() && d.spec_frames() == self.idle.frames && d.spec_left()
                == self.idle.frames,
    {
        if self.idle.frames > 0 {
            Some(self.idle.countdown())
        } else {
            None
        }
    }

    /// Refuse attract mode on with a card hold of no frame.
    pub fn validate(&self) -> (r: Result<(), AttractConfigError>)
        ensures
            r == if self.idle.frames > 0 && self.card.frames == 0 {
                Err(AttractConfigError::ZeroCardHold)
            } else {
                Ok(())
            },
    {
        if self.idle.frames > 0 && self.card.frames == 0 {
            Err(AttractConfigError::ZeroCardHold)
        } else {
            Ok(())
        }
    }
}

} // verus!
