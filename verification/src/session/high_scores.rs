//! A ranked high-score table — generic arcade machinery.
//!
//! [`HighScores`] keeps name/points entries sorted best-first and capped at a
//! caller-supplied capacity. It is a pure value type: no windowing, no
//! filesystem. The capacity is passed to each mutation rather than stored, so a
//! saved board never pins the game to the capacity it was recorded with.

use vstd::prelude::*;

verus! {

/// One row of a [`HighScores`] board: a player's name and the points scored.
#[derive(Debug, Clone, PartialEq, Eq)]
pub struct HighScoreEntry {
    pub name: String,
    pub points: u32,
}

impl View for HighScoreEntry {
    type V = (Seq<char>, u32);

    open spec fn view(&self) -> (Seq<char>, u32) {
        (self.name@, self.points)
    }
}

/// A ranked high-score table, highest points first.
#[derive(Debug, Clone, PartialEq, Eq)]
pub struct HighScores {
    entries: Vec<HighScoreEntry>,
}

impl View for HighScores {
    type V = Seq<(Seq<char>, u32)>;

    closed spec fn view(&self) -> Seq<(Seq<char>, u32)> {
        self.entries@.map_values(|e: HighScoreEntry| e@)
    }
}

/// Whether `points` earns a place on `board` under `capacity`: there is room,
/// or the board is full and `points` strictly beats the lowest entry.
pub open spec fn spec_qualifies(board: Seq<(Seq<char>, u32)>, points: u32, capacity: usize) -> bool {
    &&& capacity > 0
    &&& (board.len() < capacity || (board.len() > 0 && points > board.last().1))
}

/// `rank` is where `points` is inserted: after every entry with at least as many
/// points, before the first entry with strictly fewer.
pub open spec fn is_rank(board: Seq<(Seq<char>, u32)>, points: u32, rank: int) -> bool {
    &&& 0 <= rank <= board.len()
    &&& forall|k: int| 0 <= k < rank ==> #[trigger] board[k].1 >= points
    &&& rank < board.len() ==> board[rank].1 < points
}

/// `board` cut down to at most `capacity` entries.
pub open spec fn truncated(board: Seq<(Seq<char>, u32)>, capacity: int) -> Seq<(Seq<char>, u32)> {
    if capacity < board.len() {
        board.take(capacity)
    } else {
        board
    }
}

/// Highest points first.
pub open spec fn ranked(board: Seq<(Seq<char>, u32)>) -> bool {
    forall|i: int, j: int| 0 <= i <= j < board.len() ==> #[trigger] board[i].1 >= #[trigger] board[j].1
}

impl Default for HighScores {
    fn default() -> (b: Self)
        ensures
            b@ == Seq::<(Seq<char>, u32)>::empty(),
    {
        HighScores { entries: Vec::new() }
    }
}

impl HighScores {
    /// An empty board.
    pub fn new() -> (b: Self)
        ensures
            b@ == Seq::<(Seq<char>, u32)>::empty(),
    {
        HighScores { entries: Vec::new() }
    }

    /// The ranked entries, highest first.
    pub fn entries(&self) -> (es: &[HighScoreEntry])
        ensures
            es@.map_values(|e: HighScoreEntry| e@) == self@,
    {
        self.entries.as_slice()
    }

    /// How many entries are on the board.
    pub fn len(&self) -> (n: usize)
        ensures
            n == self@.len(),
    {
        self.entries.len()
    }

    /// Whether the board has no entries.
    pub fn is_empty(&self) -> (b: bool)
        ensures
            b <==> self@.len() == 0,
    {
        self.entries.len() == 0
    }

    /// Whether `points` would earn a place on a board of `capacity`: the board
    /// still has room, or `points` strictly beats the lowest-ranked entry.
    /// `capacity == 0` never qualifies.
    pub fn qualifies(&self, points: u32, capacity: usize) -> (q: bool)
        ensures
            q == spec_qualifies(self@, points, capacity),
    {
        if capacity == 0 {
            return false;
        }
        let n = self.entries.len();
        if n < capacity {
            return true;
        }
        points > self.entries[n - 1].points
    }

    /// Record `name`/`points`, keeping the board sorted highest-first and capped
    /// at `capacity`. Returns the new entry's rank (0-based) if it qualified, or
    /// `None` (board unchanged) if it did not. Ties rank below the incumbents.
    pub fn record(&mut self, name: &str, points: u32, capacity: usize) -> (r: Option<usize>)
        ensures
            match r {
                None => !spec_qualifies(old(self)@, points, capacity) && final(self)@ == old(self)@,
                Some(rank) => {
                    &&& spec_qualifies(old(self)@, points, capacity)
                    &&& is_rank(old(self)@, points, rank as int)
                    &&& final(self)@ == truncated(
                        old(self)@.insert(rank as int, (name@, points)),
                        capacity as int,
                    )
                },
            },
    {
        if !self.qualifies(points, capacity) {
            return None;
        }
        let ghost before = self@;
        let n = self.entries.len();
        let mut rank: usize = 0;
        while rank < n && self.entries[rank].points >= points
            invariant
                n == self.entries.len(),
                self@ == before,
                rank <= n,
                forall|k: int| 0 <= k < rank ==> #[trigger] self.entries@[k].points >= points,
            decreases n - rank,
        {
            rank += 1;
        }
        let entry = HighScoreEntry { name: name.to_owned(), points };
        let ghost e = entry;
        self.entries.insert(rank, entry);
        proof {
            assert(self@ =~= before.insert(rank as int, (name@, points))) by {
                assert(e@ == (name@, points));
            }
            assert forall|k: int| 0 <= k < rank implies #[trigger] before[k].1 >= points by {
                assert(before[k] == old(self).entries@[k]@);
            }
        }
        let ghost inserted = self@;
        self.entries.truncate(capacity);
        proof {
            if (capacity as int) < inserted.len() {
                assert(self@ =~= inserted.take(capacity as int));
            } else {
                assert(self@ =~= inserted);
            }
        }
        Some(rank)
    }
}

/// Recording into a ranked board keeps it ranked, whatever the capacity.
pub proof fn law_record_keeps_the_board_ranked(
    board: Seq<(Seq<char>, u32)>,
    name: Seq<char>,
    points: u32,
    rank: int,
    capacity: usize,
)
    requires
        ranked(board),
        is_rank(board, points, rank),
    ensures
        ranked(truncated(board.insert(rank, (name, points)), capacity as int)),
{
    let ins = board.insert(rank, (name, points));
    assert(ranked(ins)) by {
        assert forall|i: int, j: int| 0 <= i <= j < ins.len() implies #[trigger] ins[i].1
            >= #[trigger] ins[j].1 by {
            if i < rank && j == rank {
                assert(board[i].1 >= points);
            } else if i == rank && j > rank {
                assert(board[rank].1 < points);
                assert(board[rank].1 >= board[j - 1].1);
            } else if i < rank && j > rank {
                assert(board[i].1 >= board[j - 1].1);
            } else if i > rank {
                assert(board[i - 1].1 >= board[j - 1].1);
            }
        }
    }
    if (capacity as int) < ins.len() {
        let t = ins.take(capacity as int);
        assert forall|i: int, j: int| 0 <= i <= j < t.len() implies #[trigger] t[i].1
            >= #[trigger] t[j].1 by {
            assert(t[i] == ins[i] && t[j] == ins[j]);
            assert(ins[i].1 >= ins[j].1);
        }
    }
}

/// On a board within its capacity, a qualifying record lands inside the
/// capacity, at its rank, and the board stays within the capacity.
pub proof fn law_qualifying_record_is_kept(
    board: Seq<(Seq<char>, u32)>,
    name: Seq<char>,
    points: u32,
    rank: int,
    capacity: usize,
)
    requires
        board.len() <= capacity,
        spec_qualifies(board, points, capacity),
        is_rank(board, points, rank),
    ensures
        rank < capacity,
        truncated(board.insert(rank, (name, points)), capacity as int).len() <= capacity,
        truncated(board.insert(rank, (name, points)), capacity as int)[rank] == (name, points),
{
    if board.len() == capacity {
        assert(board[board.len() - 1].1 < points);
    }
}

/// How many entries of `board` score at least `points`.
pub open spec fn count_at_least(board: Seq<(Seq<char>, u32)>, points: u32) -> nat
    decreases board.len(),
{
    if board.len() == 0 {
        0
    } else {
        count_at_least(board.drop_last(), points) + if board.last().1 >= points {
            1nat
        } else {
            0nat
        }
    }
}

/// Law: on a ranked board, the rank a new score takes is the number of
/// entries scoring at least as much, so ties keep the earlier entry first.
pub proof fn law_rank_counts_the_scores_at_least(board: Seq<(Seq<char>, u32)>, points: u32, rank: int)
    requires
        ranked(board),
        is_rank(board, points, rank),
    ensures
        rank == count_at_least(board, points),
    decreases board.len(),
{
    if board.len() > 0 {
        let rest = board.drop_last();
        let n = board.len() - 1;
        assert(ranked(rest)) by {
            assert forall|i: int, j: int| 0 <= i <= j < rest.len() implies #[trigger] rest[i].1
                >= #[trigger] rest[j].1 by {
                assert(board[i].1 >= board[j].1);
            }
        }
        if board.last().1 >= points {
            if rank < board.len() {
                assert(board[rank].1 >= board[n].1);
            }
            assert(is_rank(rest, points, n));
            law_rank_counts_the_scores_at_least(rest, points, n);
        } else {
            assert(rank < board.len());
            assert(is_rank(rest, points, rank));
            law_rank_counts_the_scores_at_least(rest, points, rank);
        }
    }
}

} // verus!
