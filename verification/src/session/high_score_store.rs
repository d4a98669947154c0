//! Where a high-score board persists: the file a store is bound to, and the
//! board config naming it. Reading and writing the file is the host's job.

use vstd::prelude::*;

verus! {

/// A high-score board's file: a store binds the path once, so a caller need
/// not thread it through every load and save.
#[derive(Debug, Clone, PartialEq, Eq)]
pub struct JsonHighScoreStore {
    path: String,
}

impl JsonHighScoreStore {
    /// The path this store reads and writes.
    pub closed spec fn spec_path(self) -> Seq<char> {
        self.path@
    }

    /// A store backed by the file at `path` (it need not exist yet).
    pub fn new(path: String) -> (s: Self)
        ensures
            s.spec_path() == path@,
    {
        JsonHighScoreStore { path }
    }

    /// The file this store reads and writes.
    pub fn path(&self) -> (p: &str)
        ensures
            p@ == self.spec_path(),
    {
        self.path.as_str()
    }
}

/// How many places a board keeps (its "top N") and the file it persists to.
#[derive(Debug, Clone, PartialEq, Eq)]
pub struct ScoresConfig {
    /// Maximum entries kept on the board.
    pub capacity: usize,
    /// File the board is persisted to, relative to the working directory.
    pub file: String,
}

impl Default for ScoresConfig {
    fn default() -> (c: Self)
        ensures
            c.capacity == 10,
            c.file@ == "highscores.json"@,
    {
        ScoresConfig { capacity: 10, file: "highscores.json".to_owned() }
    }
}

impl ScoresConfig {
    /// A store bound to this config's `file`.
    pub fn store(&self) -> (s: JsonHighScoreStore)
        ensures
            s.spec_path() == self.file@,
    {
        JsonHighScoreStore::new(self.file.clone())
    }
}

} // verus!
