//! Small UI vocabulary shared by sessions and hosts: the semantic input
//! commands a host produces, and how a level is answered.

use vstd::prelude::*;

verus! {

/// One semantic input command, as a host reports it to the library.
#[derive(Debug, Clone, Copy, PartialEq, Eq, Structural)]
pub enum UiInput {
    /// Accept / submit.
    Confirm,
    /// Back out.
    Cancel,
    /// Delete the character before the caret.
    Backspace,
    /// Delete the character after the caret.
    Delete,
    Left,
    Right,
    Up,
    Down,
    Home,
    End,
    /// A typed character.
    Char(char),
}

/// How the player answers a level: typed text, or a pick from `options`
/// multiple-choice answers.
#[derive(Debug, Clone, Copy, PartialEq, Eq, Structural)]
pub enum AnswerMode {
    /// The player types the answer.
    Typed,
    /// The player picks one of `options` answers.
    MultipleChoice { options: u32 },
}

/// Why an [`AnswerMode`] is unplayable.
#[derive(Debug, Clone, Copy, PartialEq, Eq, Structural)]
pub enum AnswerModeError {
    /// A multiple choice needs at least two options to be a choice.
    TooFewOptions,
}

impl Default for AnswerMode {
    fn default() -> (m: Self)
        ensures
            m == AnswerMode::Typed,
    {
        AnswerMode::Typed
    }
}

impl AnswerMode {
    /// Whether the mode is playable.
    pub open spec fn playable(self) -> bool {
        match self {
            AnswerMode::Typed => true,
            AnswerMode::MultipleChoice { options } => options >= 2,
        }
    }

    /// Check the mode is playable: a multiple choice offers at least two
    /// options.
    pub fn validate(&self) -> (r: Result<(), AnswerModeError>)
        ensures
            r is Ok <==> self.playable(),
            r is Err ==> r == Err::<(), AnswerModeError>(AnswerModeError::TooFewOptions),
    {
        match self {
            AnswerMode::Typed => Ok(()),
            AnswerMode::MultipleChoice { options } => {
                if *options < 2 {
                    Err(AnswerModeError::TooFewOptions)
                } else {
                    Ok(())
                }
            },
        }
    }
}

/// A frame countdown: armed with `frames`, it counts down one per
/// [`advance`](Countdown::advance) and stays expired at zero until
/// [`reset`](Countdown::reset).
#[derive(Debug, Clone, Copy, PartialEq, Eq, Structural)]
pub struct Countdown {
    frames: u32,
    left: u32,
}

impl Countdown {
    /// The frames it was armed with.
    pub closed spec fn spec_frames(self) -> u32 {
        self.frames
    }

    /// The frames still to run.
    pub closed spec fn spec_left(self) -> u32 {
        self.left
    }

    /// Never more left than it was armed with.
    pub closed spec fn wf(self) -> bool {
        self.left <= self.frames
    }

    /// A countdown of `frames` frames, fully armed.
    pub fn new(frames: u32) -> (c: Self)
        ensures
            c.wf(),
            c.spec_frames() == frames,
            c.spec_left() == frames,
    {
        Countdown { frames, left: frames }
    }

    /// Run one frame; `true` exactly on the frame that expires it (a
    /// countdown already at zero stays there and answers `false`).
    pub fn advance(&mut self) -> (fired: bool)
        requires
            old(self).wf(),
        ensures
            final(self).wf(),
            final(self).spec_frames() == old(self).spec_frames(),
            final(self).spec_left() == if old(self).spec_left() == 0 {
                0
            } else {
                old(self).spec_left() - 1
            },
            fired == (old(self).spec_left() == 1),
    {
        if self.left == 0 {
            false
        } else {
            self.left = self.left - 1;
            self.left == 0
        }
    }

    /// Whether it has run out.
    pub fn is_expired(&self) -> (b: bool)
        ensures
            b == (self.spec_left() == 0),
    {
        self.left == 0
    }

    /// The frames still to run.
    pub fn remaining(&self) -> (n: u32)
        ensures
            n == self.spec_left(),
    {
        self.left
    }

    /// Re-arm it to its full length.
    pub fn reset(&mut self)
        ensures
            final(self).wf(),
            final(self).spec_frames() == old(self).spec_frames(),
            final(self).spec_left() == old(self).spec_frames(),
    {
        self.left = self.frames;
    }
}

/// A countdown's length, as configs write it.
#[derive(Debug, Clone, Copy, PartialEq, Eq, Structural)]
pub struct CountdownConfig {
    pub frames: u32,
}

impl CountdownConfig {
    /// A fresh countdown of this length.
    pub fn countdown(self) -> (c: Countdown)
        ensures
            c.wf(),
            c.spec_frames() == self.frames,
            c.spec_left() == self.frames,
    {
        Countdown::new(self.frames)
    }
}

} // verus!
