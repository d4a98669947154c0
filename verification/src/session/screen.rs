//! A stack of screens — the session's state machine (title → menu → gameplay,
//! with pause or dialog screens pushed on top).
//!
//! The top screen receives input and ticks each frame; screens beneath it
//! freeze. Rendering composites from the topmost *opaque* screen upward, so a
//! transparent overlay shows the frozen screen beneath it. Screens never touch
//! the stack themselves: a screen answers an event with a [`ScreenChange`] and
//! the stack applies it.
//!
//! The stack is generic over the screen value `S` it holds (a boxed screen
//! object in a game): driving a step is taking the top screen out with
//! [`ScreenStack::take_top`], letting it handle the event, and handing it back
//! with the change it asked for to [`ScreenStack::settle`].

use vstd::prelude::*;

verus! {

/// What a screen asks the [`ScreenStack`] to do after an event.
pub enum ScreenChange<S> {
    /// Stay on the current screen.
    Stay,
    /// Push a new screen on top; this one keeps its state beneath it.
    Push(S),
    /// Pop this screen, revealing the one beneath.
    Pop,
    /// Replace this screen with another (pop then push).
    Replace(S),
}

/// The stack `screens` (bottom first) becomes once `change` is applied.
pub open spec fn applied<S>(screens: Seq<S>, change: ScreenChange<S>) -> Seq<S> {
    match change {
        ScreenChange::Stay => screens,
        ScreenChange::Push(s) => screens.push(s),
        ScreenChange::Pop => if screens.len() == 0 {
            screens
        } else {
            screens.drop_last()
        },
        ScreenChange::Replace(s) => if screens.len() == 0 {
            screens.push(s)
        } else {
            screens.drop_last().push(s)
        },
    }
}

/// One step on a non-empty stack: the top screen comes back as `top` (its
/// updated self) and `change` is applied.
pub open spec fn stepped<S>(screens: Seq<S>, top: S, change: ScreenChange<S>) -> Seq<S> {
    applied(screens.drop_last().push(top), change)
}

/// Every screen below the top of `before` is still in place, unchanged, at the
/// bottom of `after`, and the stack moved by at most one screen.
pub open spec fn beneath_frozen<S>(before: Seq<S>, after: Seq<S>) -> bool {
    &&& before.len() - 1 <= after.len() <= before.len() + 1
    &&& after.subrange(0, before.len() - 1) == before.drop_last()
}

/// Index of the topmost `true` in `opaque`, or 0 when there is none: where
/// rendering starts.
pub open spec fn topmost_opaque(opaque: Seq<bool>) -> int
    decreases opaque.len(),
{
    if opaque.len() == 0 {
        0
    } else if opaque.last() {
        opaque.len() - 1
    } else {
        topmost_opaque(opaque.drop_last())
    }
}

/// Law: rendering starts inside a non-empty stack, at an opaque screen unless
/// it is the bottom one, and no screen above that start is opaque.
pub proof fn law_rendering_starts_at_the_topmost_opaque_screen(opaque: Seq<bool>)
    ensures
        0 <= topmost_opaque(opaque),
        opaque.len() > 0 ==> topmost_opaque(opaque) < opaque.len(),
        forall|i: int| topmost_opaque(opaque) < i < opaque.len() ==> !#[trigger] opaque[i],
        opaque.len() > 0 && topmost_opaque(opaque) > 0 ==> opaque[topmost_opaque(opaque)],
    decreases opaque.len(),
{
    if opaque.len() > 0 && !opaque.last() {
        law_rendering_starts_at_the_topmost_opaque_screen(opaque.drop_last());
        assert forall|i: int| topmost_opaque(opaque) < i < opaque.len() implies !opaque[i] by {
            if i < opaque.len() - 1 {
                assert(opaque.drop_last()[i] == opaque[i]);
            }
        }
        if topmost_opaque(opaque) > 0 {
            assert(opaque.drop_last()[topmost_opaque(opaque)] == opaque[topmost_opaque(opaque)]);
        }
    }
}

/// Law: whatever change a step asks for, the screens beneath the top are left
/// as they were — covered screens freeze.
pub proof fn law_a_step_freezes_the_screens_beneath<S>(
    screens: Seq<S>,
    top: S,
    change: ScreenChange<S>,
)
    requires
        screens.len() > 0,
    ensures
        beneath_frozen(screens, stepped(screens, top, change)),
{
    let after = stepped(screens, top, change);
    assert(after.subrange(0, screens.len() - 1) =~= screens.drop_last());
}

/// Law: pushing a screen and then popping it gives back the stack as it was.
pub proof fn law_pop_undoes_push<S>(screens: Seq<S>, screen: S)
    ensures
        applied(applied(screens, ScreenChange::Push(screen)), ScreenChange::Pop) == screens,
{
    assert(screens.push(screen).drop_last() =~= screens);
}

/// A stack of screens, bottom first. The top screen receives input and ticks;
/// rendering starts at the topmost opaque screen.
pub struct ScreenStack<S> {
    screens: Vec<S>,
}

impl<S> ScreenStack<S> {
    /// The screens, bottom first.
    pub closed spec fn screens(self) -> Seq<S> {
        self.screens@
    }

    /// A stack whose only (bottom) screen is `root`.
    pub fn new(root: S) -> (s: Self)
        ensures
            s.screens() == seq![root],
    {
        let mut screens = Vec::new();
        screens.push(root);
        ScreenStack { screens }
    }

    /// How many screens are stacked.
    pub fn len(&self) -> (n: usize)
        ensures
            n == self.screens().len(),
    {
        self.screens.len()
    }

    /// Whether every screen has been popped.
    pub fn is_empty(&self) -> (b: bool)
        ensures
            b == (self.screens().len() == 0),
    {
        self.screens.len() == 0
    }

    /// Push a screen on top (for the app itself opening an overlay).
    pub fn push(&mut self, screen: S)
        ensures
            final(self).screens() == old(self).screens().push(screen),
    {
        self.screens.push(screen);
    }

    /// Pop the top screen, if any.
    pub fn pop(&mut self)
        ensures
            final(self).screens() == applied(old(self).screens(), ScreenChange::Pop),
    {
        self.screens.pop();
    }

    /// The screen at `index` (0 is the bottom).
    pub fn screen(&self, index: usize) -> (s: &S)
        requires
            index < self.screens().len(),
        ensures
            *s == self.screens()[index as int],
    {
        &self.screens[index]
    }

    /// Take the top screen out to let it handle an event; `None` on an empty
    /// stack. Hand it back with [`settle`](Self::settle).
    pub fn take_top(&mut self) -> (top: Option<S>)
        ensures
            old(self).screens().len() == 0 ==> top is None && final(self).screens() == old(
                self,
            ).screens(),
            old(self).screens().len() > 0 ==> top == Some(old(self).screens().last())
                && final(self).screens() == old(self).screens().drop_last(),
    {
        self.screens.pop()
    }

    /// Put the (updated) top screen back and apply the change it asked for.
    pub fn settle(&mut self, top: S, change: ScreenChange<S>)
        ensures
            final(self).screens() == applied(old(self).screens().push(top), change),
    {
        self.screens.push(top);
        match change {
            ScreenChange::Stay => {},
            ScreenChange::Push(screen) => self.screens.push(screen),
            ScreenChange::Pop => {
                self.screens.pop();
            },
            ScreenChange::Replace(screen) => {
                self.screens.pop();
                self.screens.push(screen);
            },
        }
    }
}

/// Where rendering starts, given each screen's opacity bottom first: the
/// topmost opaque screen, or the bottom one when none is opaque.
pub fn topmost_opaque_index(opaque: &Vec<bool>) -> (start: usize)
    ensures
        start == topmost_opaque(opaque@),
{
    let mut i: usize = opaque.len();
    proof {
        assert(opaque@.subrange(0, opaque@.len() as int) == opaque@);
    }
    while i > 0
        invariant
            i <= opaque@.len(),
            topmost_opaque(opaque@) == topmost_opaque(opaque@.subrange(0, i as int)),
        decreases i,
    {
        if opaque[i - 1] {
            proof {
                assert(opaque@.subrange(0, i as int).last() == opaque@[i - 1]);
            }
            return i - 1;
        }
        proof {
            assert(opaque@.subrange(0, i as int).drop_last() == opaque@.subrange(0, i - 1));
        }
        i = i - 1;
    }
    0
}

} // verus!
