use ratgames::color::Color;
use ratgames::geometry::{Point, Size};
use ratgames::scene::{Direction, Overworld, Room, RoomId, RoomMap, Transition};

#[allow(non_snake_case)]
fn A() -> RoomId {
    RoomId::new(1)
}

#[allow(non_snake_case)]
fn B() -> RoomId {
    RoomId::new(2)
}

#[allow(non_snake_case)]
fn C() -> RoomId {
    RoomId::new(3)
}


fn room(id: RoomId, color: Color) -> Room {
    Room::new(id, Size::new(4, 4), color)
}

#[test]
fn direction_delta_and_opposite() {
    assert_eq!(Direction::North.delta(), Point::new(0, -1));
    assert_eq!(Direction::South.delta(), Point::new(0, 1));
    assert_eq!(Direction::East.delta(), Point::new(1, 0));
    assert_eq!(Direction::West.delta(), Point::new(-1, 0));
    assert_eq!(Direction::East.opposite(), Direction::West);
    assert_eq!(Direction::North.opposite(), Direction::South);
}

#[test]
fn room_id_roundtrips() {
    assert_eq!(RoomId::new(7).get(), 7);
}

#[test]
fn map_inserts_and_looks_up_rooms() {
    let mut map = RoomMap::new();
    assert!(map.is_empty());
    map.insert(room(A(), Color::rgb(1, 2, 3)));
    assert_eq!(map.len(), 1);
    assert!(map.contains(A()));
    assert!(!map.contains(B()));
    assert_eq!(map.room(A()).unwrap().backdrop(), Color::rgb(1, 2, 3));
    assert!(map.room(B()).is_none());
}

#[test]
fn link_is_one_way_connect_is_both_ways() {
    let mut map = RoomMap::new();
    map.insert(room(A(), Color::rgb(0, 0, 0)));
    map.insert(room(B(), Color::rgb(0, 0, 0)));
    map.insert(room(C(), Color::rgb(0, 0, 0)));

    map.link(A(), Direction::East, B());
    assert_eq!(map.neighbor(A(), Direction::East), Some(B()));
    assert_eq!(map.neighbor(B(), Direction::West), None); // one-way only

    map.connect(A(), Direction::South, C());
    assert_eq!(map.neighbor(A(), Direction::South), Some(C()));
    assert_eq!(map.neighbor(C(), Direction::North), Some(A())); // opposite auto-linked
}

#[test]
fn transition_carries_target_and_runs_once() {
    let mut t = Transition::start(Direction::East, 2, B());
    assert_eq!(t.target(), Some(B()));
    assert!(!t.is_settled());
    assert!(matches!(t, Transition::Sliding { frame: 0, frames: 2, .. })); // progress 0/2

    assert!(!t.advance()); // frame 1 of 2
    assert!(matches!(t, Transition::Sliding { frame: 1, frames: 2, .. })); // progress 1/2

    assert!(t.advance()); // reaches 2 -> settles, returns true exactly once
    assert!(t.is_settled());
    assert_eq!(t.target(), None);
    assert!(!t.advance()); // already settled
}

#[test]
fn start_clamps_zero_frames_to_one() {
    let mut t = Transition::start(Direction::North, 0, A());
    assert!(t.advance()); // a 1-frame slide settles on the first advance
}

#[test]
fn overworld_requires_a_present_start() {
    assert!(Overworld::new(RoomMap::new(), A(), 4).is_none());

    let mut map = RoomMap::new();
    map.insert(room(A(), Color::rgb(0, 0, 0)));
    assert!(Overworld::new(map, A(), 4).is_some());
}

fn two_room_world() -> Overworld {
    let mut map = RoomMap::new();
    map.insert(room(A(), Color::rgb(10, 0, 0)));
    map.insert(room(B(), Color::rgb(0, 20, 0)));
    map.connect(A(), Direction::East, B());
    Overworld::new(map, A(), 2).unwrap()
}

#[test]
fn go_starts_a_slide_toward_an_existing_neighbor() {
    let mut w = two_room_world();
    assert!(w.go(Direction::East));
    assert_eq!(w.current(), A()); // not committed until it settles
    assert_eq!(w.transition().target(), Some(B()));
    assert_eq!(w.target_room().unwrap().id(), B());
}

#[test]
fn go_into_a_wall_is_a_noop() {
    let mut w = two_room_world();
    assert!(!w.go(Direction::North)); // no neighbour north
    assert!(w.transition().is_settled());
}

#[test]
fn go_is_ignored_mid_slide() {
    let mut w = two_room_world();
    assert!(w.go(Direction::East));
    assert!(!w.go(Direction::East)); // already sliding
    assert!(!w.go(Direction::West));
}

#[test]
fn go_skips_a_dangling_link() {
    let mut map = RoomMap::new();
    map.insert(room(A(), Color::rgb(0, 0, 0)));
    map.link(A(), Direction::East, B()); // B() is never inserted
    let mut w = Overworld::new(map, A(), 2).unwrap();
    assert!(!w.go(Direction::East));
    assert!(w.transition().is_settled());
}

#[test]
fn advance_commits_the_move_on_settle() {
    let mut w = two_room_world();
    w.go(Direction::East); // 2-frame slide
    assert!(!w.advance()); // frame 1
    assert_eq!(w.current(), A());
    assert!(w.advance()); // settles
    assert_eq!(w.current(), B());
    assert!(w.transition().is_settled());
    assert!(w.target_room().is_none());
}

#[test]
fn advance_while_settled_is_a_noop() {
    let mut w = two_room_world();
    assert!(!w.advance());
    assert_eq!(w.current(), A());
}
