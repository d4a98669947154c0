//! The player's profile — a name today, the seam for high scores / unlocks later.

use vstd::prelude::*;

verus! {

/// Who is playing. Kept minimal on purpose; a session owns one and threads it
/// into the HUD and any per-player progression.
#[derive(Debug, Clone, PartialEq, Eq)]
pub struct PlayerProfile {
    pub name: String,
}

impl Default for PlayerProfile {
    fn default() -> (p: Self)
        ensures
            p.name@ == Seq::<char>::empty(),
    {
        PlayerProfile { name: String::new() }
    }
}

impl PlayerProfile {
    /// A profile for `name`.
    pub fn new(name: &str) -> (p: Self)
        ensures
            p.name@ == name@,
    {
        Self { name: name.to_owned() }
    }

    /// The player's name (empty for the default profile).
    pub fn name(&self) -> (n: &str)
        ensures
            n@ == self.name@,
    {
        self.name.as_str()
    }

    /// Rename the player (e.g. after the name-entry screen).
    pub fn set_name(&mut self, name: &str)
        ensures
            final(self).name@ == name@,
    {
        self.name = name.to_owned();
    }
}

} // verus!
