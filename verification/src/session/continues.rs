//! The arcade continue: how many times a game-over run may resume, and what it
//! keeps. The [`Default`] is a deliberate no-op — no continues.

use vstd::prelude::*;

verus! {

/// A game's continue policy: how many continues a playthrough may use, and
/// whether the score survives one.
#[derive(Debug, Clone, Copy, PartialEq, Eq, Structural)]
pub struct ContinueRules {
    /// Continues a playthrough may use. `0` (the default) offers none.
    pub allowed: u32,
    /// Whether the score survives a continue (`false` by default).
    pub keep_score: bool,
}

impl Default for ContinueRules {
    fn default() -> (r: Self)
        ensures
            r.allowed == 0,
            !r.keep_score,
    {
        ContinueRules { allowed: 0, keep_score: false }
    }
}

} // verus!
