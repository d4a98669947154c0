//! Scenes: rooms and the screen-to-screen scroll.
//!
//! A [`Room`] is one screenful of the world, identified by a [`RoomId`]. A
//! [`RoomMap`] is the graph of rooms and their cardinal [`Direction`]
//! adjacencies. An [`Overworld`] is the active-room controller: it owns a map,
//! tracks the current room, and turns a move in a [`Direction`] into a
//! [`Transition`] — a closed state machine that is either settled in a room or
//! sliding toward an adjacent one.
//!
//! The map keeps its rooms and links as association lists with distinct keys;
//! its views are the maps from ids to rooms and from `(room, direction)` to the
//! linked room.

use vstd::prelude::*;

use crate::color::Color;
use crate::geometry::{Point, Size};

verus! {

/// Cardinal direction of a room transition (screen space; `y` grows downward).
#[derive(Debug, Clone, Copy, PartialEq, Eq, Hash, Structural)]
pub enum Direction {
    North,
    South,
    East,
    West,
}

impl Direction {
    /// The unit step, as `(dx, dy)`.
    pub open spec fn step(self) -> (int, int) {
        match self {
            Direction::North => (0, -1),
            Direction::South => (0, 1),
            Direction::East => (1, 0),
            Direction::West => (-1, 0),
        }
    }

    /// The direction that undoes this one.
    pub open spec fn reverse(self) -> Direction {
        match self {
            Direction::North => Direction::South,
            Direction::South => Direction::North,
            Direction::East => Direction::West,
            Direction::West => Direction::East,
        }
    }

    /// Unit step in screen space.
    pub fn delta(self) -> (p: Point)
        ensures
            p.x == self.step().0,
            p.y == self.step().1,
    {
        match self {
            Direction::North => Point::new(0, -1),
            Direction::South => Point::new(0, 1),
            Direction::East => Point::new(1, 0),
            Direction::West => Point::new(-1, 0),
        }
    }

    /// The opposite direction.
    pub fn opposite(self) -> (d: Direction)
        ensures
            d == self.reverse(),
    {
        match self {
            Direction::North => Direction::South,
            Direction::South => Direction::North,
            Direction::East => Direction::West,
            Direction::West => Direction::East,
        }
    }
}

/// Going back is undoing: the opposite of the opposite is the direction itself,
/// its step is the negated step, and no direction is its own opposite.
pub proof fn law_opposite_undoes(d: Direction)
    ensures
        d.reverse().reverse() == d,
        d.reverse().step().0 == -d.step().0,
        d.reverse().step().1 == -d.step().1,
        d.reverse() != d,
{
}

/// A stable handle to a [`Room`] within a [`RoomMap`].
#[derive(Debug, Clone, Copy, PartialEq, Eq, Hash, Structural)]
pub struct RoomId(u32);

impl RoomId {
    /// The raw index behind the handle.
    pub closed spec fn raw(self) -> u32 {
        self.0
    }

    /// A handle for the raw index `raw`.
    pub fn new(raw: u32) -> (id: Self)
        ensures
            id.raw() == raw,
    {
        RoomId(raw)
    }

    /// The underlying index.
    pub fn get(self) -> (raw: u32)
        ensures
            raw == self.raw(),
    {
        self.0
    }
}

/// Handles with the same raw index are the same handle.
pub proof fn law_room_id_is_its_index(a: RoomId, b: RoomId)
    ensures
        a.raw() == b.raw() <==> a == b,
{
}

/// One screen that exactly fills the virtual screen: an id and a flat
/// backdrop colour.
#[derive(Debug, Clone, Copy, PartialEq, Eq)]
pub struct Room {
    id: RoomId,
    size: Size,
    backdrop: Color,
}

impl Room {
    pub closed spec fn spec_id(self) -> RoomId {
        self.id
    }

    pub closed spec fn spec_size(self) -> Size {
        self.size
    }

    pub closed spec fn spec_backdrop(self) -> Color {
        self.backdrop
    }

    /// A room `id` of `size`, painted `backdrop`.
    pub fn new(id: RoomId, size: Size, backdrop: Color) -> (r: Self)
        ensures
            r.spec_id() == id,
            r.spec_size() == size,
            r.spec_backdrop() == backdrop,
    {
        Room { id, size, backdrop }
    }

    pub fn id(&self) -> (id: RoomId)
        ensures
            id == self.spec_id(),
    {
        self.id
    }

    pub fn size(&self) -> (s: Size)
        ensures
            s == self.spec_size(),
    {
        self.size
    }

    pub fn backdrop(&self) -> (c: Color)
        ensures
            c == self.spec_backdrop(),
    {
        self.backdrop
    }
}

/// One one-way edge of the room graph.
#[derive(Debug, Clone, Copy, PartialEq, Eq)]
struct Link {
    from: RoomId,
    dir: Direction,
    to: RoomId,
}

/// The room graph: rooms keyed by [`RoomId`], plus one-way `(RoomId, Direction)`
/// adjacencies.
///
/// A room may link to a neighbour that has not been inserted (yet); the map keeps
/// the edge, and [`Overworld`] refuses to slide toward a room that does not
/// exist. Inserts are keyed off [`Room::id`].
#[derive(Debug, Clone)]
pub struct RoomMap {
    rooms: Vec<Room>,
    links: Vec<Link>,
}

spec fn room_at(rooms: Seq<Room>, id: RoomId, i: int) -> bool {
    0 <= i < rooms.len() && rooms[i].id == id
}

spec fn rooms_distinct(rooms: Seq<Room>) -> bool {
    forall|i: int, j: int| 0 <= i < j < rooms.len() ==> (#[trigger] rooms[i]).id != (#[trigger] rooms[j]).id
}

spec fn rooms_map(rooms: Seq<Room>) -> Map<RoomId, Room> {
    Map::new(
        |id: RoomId| exists|i: int| room_at(rooms, id, i),
        |id: RoomId| rooms[choose|i: int| room_at(rooms, id, i)],
    )
}

proof fn lemma_rooms_lookup(rooms: Seq<Room>, id: RoomId, i: int)
    requires
        rooms_distinct(rooms),
        room_at(rooms, id, i),
    ensures
        rooms_map(rooms).dom().contains(id),
        rooms_map(rooms)[id] == rooms[i],
{
    let j = choose|j: int| room_at(rooms, id, j);
    assert(room_at(rooms, id, j));
    if i < j {
        assert(rooms[i].id != rooms[j].id);
    } else if j < i {
        assert(rooms[j].id != rooms[i].id);
    }
}

proof fn lemma_rooms_store(rooms: Seq<Room>, after: Seq<Room>, room: Room)
    requires
        rooms_distinct(rooms),
        (exists|i: int| room_at(rooms, room.id, i) && after == rooms.update(i, room))
            || ((forall|i: int| !room_at(rooms, room.id, i)) && after == rooms.push(room)),
    ensures
        rooms_distinct(after),
        rooms_map(after) == rooms_map(rooms).insert(room.id, room),
{
    let id = room.id;
    let pos = if exists|i: int| room_at(rooms, id, i) && after == rooms.update(i, room) {
        choose|i: int| room_at(rooms, id, i) && after == rooms.update(i, room)
    } else {
        rooms.len() as int
    };
    assert(room_at(after, id, pos));
    assert forall|a: int, b: int| 0 <= a < b < after.len() implies (#[trigger] after[a]).id
        != (#[trigger] after[b]).id by {
        if a == pos {
            assert(!room_at(rooms, id, b) || pos < rooms.len());
            assert(rooms[pos].id != rooms[b].id);
        } else if b == pos {
            if pos < rooms.len() {
                assert(rooms[a].id != rooms[pos].id);
            } else {
                assert(!room_at(rooms, id, a));
            }
        } else {
            assert(rooms[a].id != rooms[b].id);
        }
    }
    lemma_rooms_lookup(after, id, pos);
    assert forall|k: RoomId|
        #[trigger] rooms_map(after).dom().contains(k) == rooms_map(rooms).insert(id, room).dom().contains(k)
        by {
        if k != id {
            if rooms_map(rooms).dom().contains(k) {
                let j = choose|j: int| room_at(rooms, k, j);
                assert(room_at(after, k, j));
            }
            if rooms_map(after).dom().contains(k) {
                let j = choose|j: int| room_at(after, k, j);
                assert(j != pos);
                assert(room_at(rooms, k, j));
            }
        }
    }
    assert forall|k: RoomId| #[trigger] rooms_map(after).dom().contains(k) implies rooms_map(after)[k]
        == rooms_map(rooms).insert(id, room)[k] by {
        if k != id {
            let j = choose|j: int| room_at(after, k, j);
            assert(j != pos);
            assert(room_at(rooms, k, j));
            lemma_rooms_lookup(rooms, k, j);
            lemma_rooms_lookup(after, k, j);
        }
    }
    assert(rooms_map(after) =~= rooms_map(rooms).insert(id, room));
}

spec fn link_at(links: Seq<Link>, key: (RoomId, Direction), i: int) -> bool {
    0 <= i < links.len() && (links[i].from, links[i].dir) == key
}

spec fn links_distinct(links: Seq<Link>) -> bool {
    forall|i: int, j: int|
        0 <= i < j < links.len() ==> ((#[trigger] links[i]).from, links[i].dir) != (
            (#[trigger] links[j]).from,
            links[j].dir,
        )
}

spec fn links_map(links: Seq<Link>) -> Map<(RoomId, Direction), RoomId> {
    Map::new(
        |key: (RoomId, Direction)| exists|i: int| link_at(links, key, i),
        |key: (RoomId, Direction)| links[choose|i: int| link_at(links, key, i)].to,
    )
}

proof fn lemma_links_lookup(links: Seq<Link>, key: (RoomId, Direction), i: int)
    requires
        links_distinct(links),
        link_at(links, key, i),
    ensures
        links_map(links).dom().contains(key),
        links_map(links)[key] == links[i].to,
{
    let j = choose|j: int| link_at(links, key, j);
    assert(link_at(links, key, j));
    if i < j {
        assert((links[i].from, links[i].dir) != (links[j].from, links[j].dir));
    } else if j < i {
        assert((links[j].from, links[j].dir) != (links[i].from, links[i].dir));
    }
}

proof fn lemma_links_store(links: Seq<Link>, after: Seq<Link>, l: Link)
    requires
        links_distinct(links),
        (exists|i: int| link_at(links, (l.from, l.dir), i) && after == links.update(i, l))
            || ((forall|i: int| !link_at(links, (l.from, l.dir), i)) && after == links.push(l)),
    ensures
        links_distinct(after),
        links_map(after) == links_map(links).insert((l.from, l.dir), l.to),
{
    let key = (l.from, l.dir);
    let pos = if exists|i: int| link_at(links, key, i) && after == links.update(i, l) {
        choose|i: int| link_at(links, key, i) && after == links.update(i, l)
    } else {
        links.len() as int
    };
    assert(link_at(after, key, pos));
    assert forall|a: int, b: int| 0 <= a < b < after.len() implies ((#[trigger] after[a]).from,
        after[a].dir) != ((#[trigger] after[b]).from, after[b].dir) by {
        if a == pos {
            assert((links[pos].from, links[pos].dir) != (links[b].from, links[b].dir));
        } else if b == pos {
            if pos < links.len() {
                assert((links[a].from, links[a].dir) != (links[pos].from, links[pos].dir));
            } else {
                assert(!link_at(links, key, a));
            }
        } else {
            assert((links[a].from, links[a].dir) != (links[b].from, links[b].dir));
        }
    }
    lemma_links_lookup(after, key, pos);
    assert forall|k: (RoomId, Direction)|
        #[trigger] links_map(after).dom().contains(k) == links_map(links).insert(key, l.to).dom().contains(k)
        by {
        if k != key {
            if links_map(links).dom().contains(k) {
                let j = choose|j: int| link_at(links, k, j);
                assert(link_at(after, k, j));
            }
            if links_map(after).dom().contains(k) {
                let j = choose|j: int| link_at(after, k, j);
                assert(j != pos);
                assert(link_at(links, k, j));
            }
        }
    }
    assert forall|k: (RoomId, Direction)| #[trigger] links_map(after).dom().contains(k) implies links_map(
        after,
    )[k] == links_map(links).insert(key, l.to)[k] by {
        if k != key {
            let j = choose|j: int| link_at(after, k, j);
            assert(j != pos);
            assert(link_at(links, k, j));
            lemma_links_lookup(links, k, j);
            lemma_links_lookup(after, k, j);
        }
    }
    assert(links_map(after) =~= links_map(links).insert(key, l.to));
}

impl RoomMap {
    /// No two rooms share an id and no two links share a `(from, dir)` key.
    pub closed spec fn wf(self) -> bool {
        rooms_distinct(self.rooms@) && links_distinct(self.links@)
    }

    /// The rooms, by id.
    pub closed spec fn rooms_view(self) -> Map<RoomId, Room> {
        rooms_map(self.rooms@)
    }

    /// The links, by `(from, direction)`.
    pub closed spec fn links_view(self) -> Map<(RoomId, Direction), RoomId> {
        links_map(self.links@)
    }

    /// An empty map.
    pub fn new() -> (m: Self)
        ensures
            m.wf(),
            m.rooms_view() == Map::<RoomId, Room>::empty(),
            m.links_view() == Map::<(RoomId, Direction), RoomId>::empty(),
    {
        let m = RoomMap { rooms: Vec::new(), links: Vec::new() };
        proof {
            assert(m.rooms_view() =~= Map::<RoomId, Room>::empty());
            assert(m.links_view() =~= Map::<(RoomId, Direction), RoomId>::empty());
        }
        m
    }

    fn find_room(&self, id: RoomId) -> (r: Option<usize>)
        ensures
            match r {
                Some(i) => room_at(self.rooms@, id, i as int),
                None => forall|i: int| !room_at(self.rooms@, id, i),
            },
    {
        let mut i: usize = 0;
        while i < self.rooms.len()
            invariant
                i <= self.rooms@.len(),
                forall|k: int| 0 <= k < i ==> !room_at(self.rooms@, id, k),
            decreases self.rooms@.len() - i,
        {
            if self.rooms[i].id == id {
                return Some(i);
            }
            i += 1;
        }
        None
    }

    fn find_link(&self, from: RoomId, dir: Direction) -> (r: Option<usize>)
        ensures
            match r {
                Some(i) => link_at(self.links@, (from, dir), i as int),
                None => forall|i: int| !link_at(self.links@, (from, dir), i),
            },
    {
        let mut i: usize = 0;
        while i < self.links.len()
            invariant
                i <= self.links@.len(),
                forall|k: int| 0 <= k < i ==> !link_at(self.links@, (from, dir), k),
            decreases self.links@.len() - i,
        {
            if self.links[i].from == from && self.links[i].dir == dir {
                return Some(i);
            }
            i += 1;
        }
        None
    }

    /// Insert (or replace) a room, keyed by its own id.
    pub fn insert(&mut self, room: Room)
        requires
            old(self).wf(),
        ensures
            final(self).wf(),
            final(self).rooms_view() == old(self).rooms_view().insert(room.spec_id(), room),
            final(self).links_view() == old(self).links_view(),
    {
        let ghost before = self.rooms@;
        match self.find_room(room.id) {
            Some(i) => {
                self.rooms[i] = room;
                proof {
                    lemma_rooms_store(before, self.rooms@, room);
                }
            },
            None => {
                self.rooms.push(room);
                proof {
                    lemma_rooms_store(before, self.rooms@, room);
                }
            },
        }
    }

    /// Link `from` to `to` when moving `dir` (one-way).
    pub fn link(&mut self, from: RoomId, dir: Direction, to: RoomId)
        requires
            old(self).wf(),
        ensures
            final(self).wf(),
            final(self).links_view() == old(self).links_view().insert((from, dir), to),
            final(self).rooms_view() == old(self).rooms_view(),
    {
        let ghost before = self.links@;
        let l = Link { from, dir, to };
        match self.find_link(from, dir) {
            Some(i) => {
                self.links[i] = l;
                proof {
                    lemma_links_store(before, self.links@, l);
                }
            },
            None => {
                self.links.push(l);
                proof {
                    lemma_links_store(before, self.links@, l);
                }
            },
        }
    }

    /// Link `a` and `b` both ways: `a --dir--> b` and `b --opposite--> a`.
    pub fn connect(&mut self, a: RoomId, dir: Direction, b: RoomId)
        requires
            old(self).wf(),
        ensures
            final(self).wf(),
            final(self).links_view() == old(self).links_view().insert((a, dir), b).insert(
                (b, dir.reverse()),
                a,
            ),
            final(self).rooms_view() == old(self).rooms_view(),
    {
        self.link(a, dir, b);
        self.link(b, dir.opposite(), a);
    }

    /// The room with `id`, if present.
    pub fn room(&self, id: RoomId) -> (r: Option<&Room>)
        requires
            self.wf(),
        ensures
            match r {
                Some(room) => self.rooms_view().dom().contains(id) && *room == self.rooms_view()[id],
                None => !self.rooms_view().dom().contains(id),
            },
    {
        match self.find_room(id) {
            Some(i) => {
                proof {
                    lemma_rooms_lookup(self.rooms@, id, i as int);
                }
                Some(&self.rooms[i])
            },
            None => None,
        }
    }

    /// Whether a room with `id` is present.
    pub fn contains(&self, id: RoomId) -> (b: bool)
        requires
            self.wf(),
        ensures
            b == self.rooms_view().dom().contains(id),
    {
        match self.find_room(id) {
            Some(i) => {
                proof {
                    lemma_rooms_lookup(self.rooms@, id, i as int);
                }
                true
            },
            None => false,
        }
    }

    /// The room reached by leaving `id` in `dir`, if that edge is linked. The
    /// target need not exist as a room — callers that require it must check.
    pub fn neighbor(&self, id: RoomId, dir: Direction) -> (r: Option<RoomId>)
        requires
            self.wf(),
        ensures
            r == (if self.links_view().dom().contains((id, dir)) {
                Some(self.links_view()[(id, dir)])
            } else {
                None::<RoomId>
            }),
    {
        match self.find_link(id, dir) {
            Some(i) => {
                proof {
                    lemma_links_lookup(self.links@, (id, dir), i as int);
                }
                Some(self.links[i].to)
            },
            None => None,
        }
    }

    /// How many rooms the map holds.
    pub fn len(&self) -> (n: usize)
        requires
            self.wf(),
        ensures
            self.rooms_view().dom().finite(),
            n == self.rooms_view().dom().len(),
    {
        proof {
            broadcast use vstd::seq_lib::seq_to_set_is_finite;

            let ids = self.rooms@.map_values(|r: Room| r.id);
            assert(ids.no_duplicates()) by {
                assert forall|i: int, j: int|
                    0 <= i < ids.len() && 0 <= j < ids.len() && i != j implies ids[i] != ids[j] by {
                    if i < j {
                        assert(self.rooms@[i].id != self.rooms@[j].id);
                    } else {
                        assert(self.rooms@[j].id != self.rooms@[i].id);
                    }
                }
            }
            ids.unique_seq_to_set();
            assert forall|k: RoomId| #![auto]
                self.rooms_view().dom().contains(k) <==> ids.to_set().contains(k) by {
                if self.rooms_view().dom().contains(k) {
                    let j = choose|j: int| room_at(self.rooms@, k, j);
                    assert(ids[j] == k);
                }
                if ids.to_set().contains(k) {
                    let j = choose|j: int| 0 <= j < ids.len() && ids[j] == k;
                    assert(room_at(self.rooms@, k, j));
                }
            }
            assert(self.rooms_view().dom() =~= ids.to_set());
        }
        self.rooms.len()
    }

    /// Whether the map holds no rooms.
    pub fn is_empty(&self) -> (b: bool)
        requires
            self.wf(),
        ensures
            b <==> self.rooms_view().dom().len() == 0,
    {
        self.len() == 0
    }
}

/// `connect` links both ways: after it, leaving `a` by `dir` reaches `b` and
/// leaving `b` the opposite way reaches `a`.
pub proof fn law_connect_links_both_ways(
    links: Map<(RoomId, Direction), RoomId>,
    a: RoomId,
    dir: Direction,
    b: RoomId,
)
    ensures
        ({
            let after = links.insert((a, dir), b).insert((b, dir.reverse()), a);
            &&& after.dom().contains((a, dir)) && after[(a, dir)] == b
            &&& after.dom().contains((b, dir.reverse())) && after[(b, dir.reverse())] == a
        }),
{
    assert((a, dir) != (b, dir.reverse()));
}

/// Room-to-room scroll: a closed state machine, either settled or sliding toward
/// a `target` room over a fixed number of frames.
#[derive(Debug, Clone, Copy, PartialEq, Eq, Structural)]
pub enum Transition {
    Settled,
    Sliding { dir: Direction, frame: u16, frames: u16, target: RoomId },
}

impl Default for Transition {
    fn default() -> (t: Self)
        ensures
            t == Transition::Settled,
    {
        Transition::Settled
    }
}

/// What one frame does to a transition: the next state, and whether it settled
/// on this frame.
pub open spec fn spec_advance(t: Transition) -> (Transition, bool) {
    match t {
        Transition::Settled => (Transition::Settled, false),
        Transition::Sliding { dir, frame, frames, target } => {
            if frame + 1 >= frames {
                (Transition::Settled, true)
            } else {
                (Transition::Sliding { dir, frame: (frame + 1) as u16, frames, target }, false)
            }
        },
    }
}

/// `n` frames of [`spec_advance`].
pub open spec fn advance_n(t: Transition, n: nat) -> Transition
    decreases n,
{
    if n == 0 {
        t
    } else {
        advance_n(spec_advance(t).0, (n - 1) as nat)
    }
}

impl Transition {
    /// The state's own bounds: a slide runs at least one frame and has not yet
    /// reached its last.
    pub open spec fn wf(self) -> bool {
        match self {
            Transition::Settled => true,
            Transition::Sliding { frame, frames, .. } => 1 <= frames && frame < frames,
        }
    }

    /// Begin sliding `dir` toward `target` over `frames` frames (at least 1).
    pub fn start(dir: Direction, frames: u16, target: RoomId) -> (t: Self)
        ensures
            t == (Transition::Sliding {
                dir,
                frame: 0,
                frames: if frames == 0 { 1 } else { frames },
                target,
            }),
            t.wf(),
    {
        Transition::Sliding { dir, frame: 0, frames: if frames == 0 { 1 } else { frames }, target }
    }

    /// Advance one frame. Returns `true` on the frame it settles.
    pub fn advance(&mut self) -> (settled: bool)
        requires
            old(self).wf(),
        ensures
            (*final(self), settled) == spec_advance(*old(self)),
            final(self).wf(),
    {
        match *self {
            Transition::Settled => false,
            Transition::Sliding { dir, frame, frames, target } => {
                let next = frame + 1;
                if next >= frames {
                    *self = Transition::Settled;
                    true
                } else {
                    *self = Transition::Sliding { dir, frame: next, frames, target };
                    false
                }
            },
        }
    }

    /// The destination room while sliding; `None` once settled.
    pub fn target(&self) -> (r: Option<RoomId>)
        ensures
            r == (match *self {
                Transition::Settled => None::<RoomId>,
                Transition::Sliding { target, .. } => Some(target),
            }),
    {
        match *self {
            Transition::Settled => None,
            Transition::Sliding { target, .. } => Some(target),
        }
    }

    /// Whether no slide is in progress.
    pub fn is_settled(&self) -> (b: bool)
        ensures
            b == (*self is Settled),
    {
        match *self {
            Transition::Settled => true,
            Transition::Sliding { .. } => false,
        }
    }
}

/// A slide settles after exactly its remaining frames: every earlier frame
/// leaves it sliding toward the same target, and the last settles it.
pub proof fn law_slide_settles_after_its_frames(t: Transition, k: nat)
    requires
        t.wf(),
        t is Sliding,
    ensures
        k < t->frames - t->frame ==> advance_n(t, k) == (Transition::Sliding {
            dir: t->dir,
            frame: (t->frame + k) as u16,
            frames: t->frames,
            target: t->target,
        }),
        k == t->frames - t->frame ==> {
            &&& advance_n(t, (k - 1) as nat) is Sliding
            &&& spec_advance(advance_n(t, (k - 1) as nat)).1
            &&& advance_n(t, k) is Settled
        },
    decreases k,
{
    if k > 0 {
        law_slide_settles_after_its_frames(t, (k - 1) as nat);
        lemma_advance_n_last(t, k);
    }
}

/// `advance_n` peels its last step off the end.
pub proof fn lemma_advance_n_last(t: Transition, n: nat)
    requires
        n > 0,
    ensures
        advance_n(t, n) == spec_advance(advance_n(t, (n - 1) as nat)).0,
    decreases n,
{
    if n > 1 {
        lemma_advance_n_last(spec_advance(t).0, (n - 1) as nat);
        assert(advance_n(t, (n - 1) as nat) == advance_n(spec_advance(t).0, (n - 2) as nat));
    } else {
        assert(advance_n(t, 0) == t);
        assert(advance_n(spec_advance(t).0, 0) == spec_advance(t).0);
    }
}

/// A settled transition stays settled: no frame starts it moving again or
/// reports a second settling.
pub proof fn law_settled_stays_settled(n: nat)
    ensures
        advance_n(Transition::Settled, n) == Transition::Settled,
        !spec_advance(Transition::Settled).1,
    decreases n,
{
    if n > 0 {
        law_settled_stays_settled((n - 1) as nat);
    }
}

/// `a + b` frames are `a` frames, then `b` more.
pub proof fn lemma_advance_n_split(t: Transition, a: nat, b: nat)
    ensures
        advance_n(t, a + b) == advance_n(advance_n(t, a), b),
    decreases a,
{
    if a > 0 {
        lemma_advance_n_split(spec_advance(t).0, (a - 1) as nat, b);
        assert((a + b - 1) as nat == ((a - 1) as nat + b) as nat);
    }
}

/// A slide reports settling on exactly one frame: of the frames run from a
/// slide with `m` frames to go, the `m`-th settles it, every earlier one
/// leaves it sliding, and every later one finds it settled and reports
/// nothing.
pub proof fn law_a_slide_settles_once(t: Transition, k: nat)
    requires
        t.wf(),
        t is Sliding,
    ensures
        spec_advance(advance_n(t, k)).1 == (k + 1 == t->frames - t->frame),
        advance_n(t, k) is Settled == (k >= t->frames - t->frame),
{
    let m = (t->frames - t->frame) as nat;
    if k < m {
        law_slide_settles_after_its_frames(t, k);
        law_slide_settles_after_its_frames(t, m);
    } else {
        law_slide_settles_after_its_frames(t, m);
        lemma_advance_n_split(t, m, (k - m) as nat);
        law_settled_stays_settled((k - m) as nat);
        assert(k == m + (k - m) as nat);
    }
}

/// The active-room controller: owns a [`RoomMap`], tracks the current room, and
/// turns a move into a [`Transition`]. Ticking the transition to completion
/// commits the move.
#[derive(Debug, Clone)]
pub struct Overworld {
    map: RoomMap,
    current: RoomId,
    transition: Transition,
    slide_frames: u16,
}

impl Overworld {
    pub closed spec fn spec_map(self) -> RoomMap {
        self.map
    }

    pub closed spec fn spec_current(self) -> RoomId {
        self.current
    }

    pub closed spec fn spec_transition(self) -> Transition {
        self.transition
    }

    pub closed spec fn spec_slide_frames(self) -> u16 {
        self.slide_frames
    }

    /// The controller's invariant: a well-formed map holding the current room,
    /// and, mid-slide, the target room too; slides last at least one frame.
    pub closed spec fn wf(self) -> bool {
        &&& self.map.wf()
        &&& self.map.rooms_view().dom().contains(self.current)
        &&& self.slide_frames >= 1
        &&& self.transition.wf()
        &&& match self.transition {
            Transition::Settled => true,
            Transition::Sliding { target, .. } => self.map.rooms_view().dom().contains(target),
        }
    }

    /// Place the player in `start` within `map`, with each room-to-room slide
    /// lasting `slide_frames` frames (clamped to at least 1). `None` if `start`
    /// is not a room in `map`.
    pub fn new(map: RoomMap, start: RoomId, slide_frames: u16) -> (r: Option<Self>)
        requires
            map.wf(),
        ensures
            match r {
                None => !map.rooms_view().dom().contains(start),
                Some(w) => {
                    &&& map.rooms_view().dom().contains(start)
                    &&& w.wf()
                    &&& w.spec_map() == map
                    &&& w.spec_current() == start
                    &&& w.spec_transition() == Transition::Settled
                    &&& w.spec_slide_frames() == (if slide_frames == 0 { 1 } else { slide_frames })
                },
            },
    {
        if !map.contains(start) {
            return None;
        }
        Some(Overworld {
            map,
            current: start,
            transition: Transition::Settled,
            slide_frames: if slide_frames == 0 { 1 } else { slide_frames },
        })
    }

    pub fn map(&self) -> (m: &RoomMap)
        ensures
            *m == self.spec_map(),
    {
        &self.map
    }

    pub fn current(&self) -> (id: RoomId)
        ensures
            id == self.spec_current(),
    {
        self.current
    }

    /// The room the player is in: always present, since the current room is
    /// checked at construction and rooms are never removed.
    pub fn current_room(&self) -> (r: &Room)
        requires
            self.wf(),
        ensures
            *r == self.spec_map().rooms_view()[self.spec_current()],
    {
        match self.map.room(self.current) {
            Some(r) => r,
            None => {
                proof {
                    assert(false);
                }
                &self.map.rooms[0]
            },
        }
    }

    pub fn transition(&self) -> (t: Transition)
        ensures
            t == self.spec_transition(),
    {
        self.transition
    }

    /// The room being slid toward, while a slide is in progress.
    pub fn target_room(&self) -> (r: Option<&Room>)
        requires
            self.wf(),
        ensures
            match self.spec_transition() {
                Transition::Settled => r is None,
                Transition::Sliding { target, .. } => r is Some && *r->0
                    == self.spec_map().rooms_view()[target],
            },
    {
        match self.transition.target() {
            Some(id) => self.map.room(id),
            None => None,
        }
    }

    /// Start sliding toward the neighbour in `dir`. A no-op returning `false`
    /// when already sliding, when there is no linked neighbour that way, or when
    /// the linked neighbour is not a room in the map (a dangling link).
    pub fn go(&mut self, dir: Direction) -> (started: bool)
        requires
            old(self).wf(),
        ensures
            final(self).wf(),
            final(self).spec_map() == old(self).spec_map(),
            final(self).spec_current() == old(self).spec_current(),
            final(self).spec_slide_frames() == old(self).spec_slide_frames(),
            started <==> {
                &&& old(self).spec_transition() is Settled
                &&& old(self).spec_map().links_view().dom().contains((old(self).spec_current(), dir))
                &&& old(self).spec_map().rooms_view().dom().contains(
                    old(self).spec_map().links_view()[(old(self).spec_current(), dir)],
                )
            },
            started ==> final(self).spec_transition() == (Transition::Sliding {
                dir,
                frame: 0,
                frames: old(self).spec_slide_frames(),
                target: old(self).spec_map().links_view()[(old(self).spec_current(), dir)],
            }),
            !started ==> final(self).spec_transition() == old(self).spec_transition(),
    {
        if !self.transition.is_settled() {
            return false;
        }
        match self.map.neighbor(self.current, dir) {
            Some(target) => {
                if self.map.contains(target) {
                    self.transition = Transition::start(dir, self.slide_frames, target);
                    true
                } else {
                    false
                }
            },
            None => false,
        }
    }

    /// Advance an in-progress slide one frame; commit the move (`current` becomes
    /// the target) on the frame it settles. Returns `true` on that settling frame.
    pub fn advance(&mut self) -> (settled: bool)
        requires
            old(self).wf(),
        ensures
            final(self).wf(),
            (final(self).spec_transition(), settled) == spec_advance(old(self).spec_transition()),
            final(self).spec_map() == old(self).spec_map(),
            final(self).spec_slide_frames() == old(self).spec_slide_frames(),
            final(self).spec_current() == (if settled {
                old(self).spec_transition()->target
            } else {
                old(self).spec_current()
            }),
    {
        let target = self.transition.target();
        let settled = self.transition.advance();
        if settled {
            match target {
                Some(id) => {
                    self.current = id;
                },
                None => {},
            }
        }
        settled
    }
}

/// The current room is always a room of the map: it is checked on entry,
/// every committed move lands on a room the map holds, and rooms are never
/// removed.
pub proof fn law_the_current_room_is_on_the_map(w: Overworld)
    requires
        w.wf(),
    ensures
        w.spec_map().rooms_view().dom().contains(w.spec_current()),
        w.spec_transition() matches Transition::Sliding { target, .. } ==> w.spec_map().rooms_view().dom().contains(target),
{
}

} // verus!
