//! The dungeon: rooms keyed by their coordinate, and the walk that lays
//! them out.

use vstd::prelude::*;
use rand::rngs::StdRng;
use crate::random::random_index;
use crate::room::{fits_i32, GenerationError, Room, RoomGeneration};

verus! {

/// A room coordinate: `x` grows to the east, `y` to the south.
pub type Coordinate = (i32, i32);

/// The four sides of a room, and the steps between neighbouring rooms.
#[derive(Clone, Copy, Debug, PartialEq, Eq, Structural)]
pub enum Direction {
    North,
    South,
    East,
    West,
}

impl Direction {
    pub open spec fn delta(self) -> (int, int) {
        match self {
            Direction::North => (0, -1),
            Direction::South => (0, 1),
            Direction::East => (1, 0),
            Direction::West => (-1, 0),
        }
    }

    pub open spec fn opposite(self) -> Direction {
        match self {
            Direction::North => Direction::South,
            Direction::South => Direction::North,
            Direction::East => Direction::West,
            Direction::West => Direction::East,
        }
    }

    /// The coordinate one step from `c` in this direction.
    pub open spec fn step(self, c: Coordinate) -> (int, int) {
        (c.0 + self.delta().0, c.1 + self.delta().1)
    }

    /// The neighbour of `c` in this direction, where it is a coordinate.
    pub open spec fn neighbour(self, c: Coordinate) -> Coordinate {
        (self.step(c).0 as i32, self.step(c).1 as i32)
    }

    /// The neighbour of `c` in this direction is a coordinate.
    pub open spec fn has_neighbour(self, c: Coordinate) -> bool {
        fits_i32(self.step(c).0) && fits_i32(self.step(c).1)
    }

    pub open spec fn from_index_spec(i: int) -> Direction {
        if i == 0 {
            Direction::North
        } else if i == 1 {
            Direction::South
        } else if i == 2 {
            Direction::East
        } else {
            Direction::West
        }
    }

    /// The direction numbered `i`: north, south, east, west for 0 to 3.
    pub fn from_index(i: usize) -> (r: Direction)
        requires
            i < 4,
        ensures
            r == Self::from_index_spec(i as int),
    {
        if i == 0 {
            Direction::North
        } else if i == 1 {
            Direction::South
        } else if i == 2 {
            Direction::East
        } else {
            Direction::West
        }
    }

    /// A direction drawn uniformly from the four.
    pub fn sample(rng: &mut StdRng) -> Direction {
        Direction::from_index(random_index(rng, 0, 4))
    }

    /// The step from a room coordinate to its neighbour.
    pub fn relative_pos(&self) -> (r: (i32, i32))
        ensures
            r.0 == self.delta().0,
            r.1 == self.delta().1,
    {
        match self {
            Direction::North => (0, -1),
            Direction::South => (0, 1),
            Direction::East => (1, 0),
            Direction::West => (-1, 0),
        }
    }

    /// The neighbouring coordinate in this direction.
    pub fn add(&self, coordinates: Coordinate) -> (r: Coordinate)
        requires
            self.has_neighbour(coordinates),
        ensures
            r == self.neighbour(coordinates),
    {
        let relative_pos = self.relative_pos();
        (relative_pos.0 + coordinates.0, relative_pos.1 + coordinates.1)
    }

    /// Opens the exit on this side of the room.
    pub fn set_exit(&self, room_gen: &mut RoomGeneration)
        ensures
            *final(room_gen) == old(room_gen).with_exit(*self),
    {
        match self {
            Direction::North => room_gen.exit_north = true,
            Direction::South => room_gen.exit_south = true,
            Direction::East => room_gen.exit_east = true,
            Direction::West => room_gen.exit_west = true,
        }
    }

    /// The direction back.
    pub fn reverse(&self) -> (r: Direction)
        ensures
            r == self.opposite(),
    {
        match self {
            Direction::North => Direction::South,
            Direction::South => Direction::North,
            Direction::East => Direction::West,
            Direction::West => Direction::East,
        }
    }
}

/// Whether coordinate `a` comes before `b`: by `x`, then by `y`.
pub open spec fn coordinate_lt(a: Coordinate, b: Coordinate) -> bool {
    a.0 < b.0 || (a.0 == b.0 && a.1 < b.1)
}

fn coordinate_less(a: Coordinate, b: Coordinate) -> (r: bool)
    ensures
        r == coordinate_lt(a, b),
{
    a.0 < b.0 || (a.0 == b.0 && a.1 < b.1)
}

fn same_coordinate(a: Coordinate, b: Coordinate) -> (r: bool)
    ensures
        r == (a == b),
{
    a.0 == b.0 && a.1 == b.1
}

/// Rooms keyed by their coordinate, each coordinate at most once, kept in
/// coordinate order.
pub struct DungeonMap<T> {
    rooms: Vec<(Coordinate, T)>,
}

/// The generated dungeon.
pub type RoomMap = DungeonMap<Room>;

impl<T> DungeonMap<T> {
    /// The entries in coordinate order.
    pub closed spec fn entries(self) -> Seq<(Coordinate, T)> {
        self.rooms@
    }

    /// Coordinates strictly increase along the entries.
    pub open spec fn wf(self) -> bool {
        forall|i: int, j: int|
            0 <= i < j < self.entries().len() ==> coordinate_lt(
                self.entries()[i].0,
                self.entries()[j].0,
            )
    }

    pub open spec fn has(self, c: Coordinate) -> bool {
        exists|i: int| 0 <= i < self.entries().len() && self.entries()[i].0 == c
    }

    /// Where `c` stands among the entries, if it does.
    pub open spec fn index_of(self, c: Coordinate) -> int {
        choose|i: int| 0 <= i < self.entries().len() && self.entries()[i].0 == c
    }

    pub open spec fn lookup(self, c: Coordinate) -> T {
        self.entries()[self.index_of(c)].1
    }

    /// The rooms as a map from coordinate to room.
    pub open spec fn view(self) -> Map<Coordinate, T> {
        Map::new(|c: Coordinate| self.has(c), |c: Coordinate| self.lookup(c))
    }

    /// The entry at `i` is what the map holds for its coordinate.
    pub proof fn lemma_entry(self, i: int)
        requires
            self.wf(),
            0 <= i < self.entries().len(),
        ensures
            self@.contains_key(self.entries()[i].0),
            self@[self.entries()[i].0] == self.entries()[i].1,
    {
        let c = self.entries()[i].0;
        assert(self.has(c));
        let j = self.index_of(c);
        if j < i {
            assert(coordinate_lt(self.entries()[j].0, self.entries()[i].0));
        } else if i < j {
            assert(coordinate_lt(self.entries()[i].0, self.entries()[j].0));
        }
        assert(j == i);
        assert(self@.dom().contains(c));
        assert(self@[c] == self.lookup(c));
    }

    /// Changing the room of one entry keeps the order and changes the map
    /// at that coordinate only.
    pub proof fn lemma_replace_value(a: Self, b: Self, i: int)
        requires
            a.wf(),
            0 <= i < a.entries().len(),
            b.entries().len() == a.entries().len(),
            b.entries() == a.entries().update(i, (a.entries()[i].0, b.entries()[i].1)),
        ensures
            b.wf(),
            b@ == a@.insert(a.entries()[i].0, b.entries()[i].1),
    {
        let c = a.entries()[i].0;
        assert forall|k: int| 0 <= k < b.entries().len() implies b.entries()[k].0
            == a.entries()[k].0 by {}
        assert(b.wf());
        assert forall|q: Coordinate| b.has(q) == a.has(q) by {
            if a.has(q) {
                let k = a.index_of(q);
                assert(b.entries()[k].0 == q);
            }
            if b.has(q) {
                let k = b.index_of(q);
                assert(a.entries()[k].0 == q);
            }
        }
        assert forall|q: Coordinate| #[trigger] b.has(q) implies b.lookup(q) == (if q == c {
            b.entries()[i].1
        } else {
            a.lookup(q)
        }) by {
            let k = b.index_of(q);
            b.lemma_entry(k);
            b.lemma_entry(i);
            a.lemma_entry(k);
        }
        assert(b@ =~= a@.insert(c, b.entries()[i].1));
    }

    /// An empty map.
    pub fn new() -> (r: Self)
        ensures
            r.wf(),
            r@ == Map::<Coordinate, T>::empty(),
            r.entries().len() == 0,
    {
        let r = DungeonMap { rooms: Vec::new() };
        assert(r@ =~= Map::<Coordinate, T>::empty());
        r
    }

    /// Number of rooms.
    pub fn len(&self) -> (r: usize)
        ensures
            r == self.entries().len(),
    {
        self.rooms.len()
    }

    /// Position of the first entry whose coordinate is not before `c`.
    fn position_of(&self, c: Coordinate) -> (r: usize)
        requires
            self.wf(),
        ensures
            r <= self.entries().len(),
            forall|i: int| 0 <= i < r ==> coordinate_lt(self.entries()[i].0, c),
            r < self.entries().len() ==> !coordinate_lt(self.entries()[r as int].0, c),
            forall|i: int| r <= i < self.entries().len() ==> !coordinate_lt(self.entries()[i].0, c),
    {
        let mut i: usize = 0;
        while i < self.rooms.len()
            invariant
                self.wf(),
                i <= self.entries().len(),
                forall|k: int| 0 <= k < i ==> coordinate_lt(self.entries()[k].0, c),
            decreases self.entries().len() - i,
        {
            if !coordinate_less(self.rooms[i].0, c) {
                assert forall|k: int| i <= k < self.entries().len() implies !coordinate_lt(
                    self.entries()[k].0,
                    c,
                ) by {
                    if k > i {
                        assert(coordinate_lt(self.entries()[i as int].0, self.entries()[k].0));
                    }
                }
                return i;
            }
            i = i + 1;
        }
        i
    }

    /// Puts `room` at `coordinate`, replacing what was there.
    pub fn add_room(&mut self, coordinate: Coordinate, room: T)
        requires
            old(self).wf(),
        ensures
            final(self).wf(),
            final(self)@ == old(self)@.insert(coordinate, room),
            final(self).entries().len() == old(self).entries().len() + if old(self)@.contains_key(
                coordinate,
            ) {
                0int
            } else {
                1int
            },
    {
        let p = self.position_of(coordinate);
        let ghost old_map = *self;
        if p < self.rooms.len() && same_coordinate(self.rooms[p].0, coordinate) {
            proof {
                old_map.lemma_entry(p as int);
            }
            self.rooms.set(p, (coordinate, room));
            proof {
                assert forall|c: Coordinate| self.has(c) == old_map.has(c) by {
                    if old_map.has(c) {
                        let j = choose|j: int|
                            0 <= j < old_map.entries().len() && old_map.entries()[j].0 == c;
                        assert(self.entries()[j].0 == c);
                    }
                    if self.has(c) {
                        let j = choose|j: int|
                            0 <= j < self.entries().len() && self.entries()[j].0 == c;
                        assert(old_map.entries()[j].0 == c);
                    }
                }
                assert forall|c: Coordinate| #[trigger] self.has(c) implies self.lookup(c) == (
                if c == coordinate {
                    room
                } else {
                    old_map.lookup(c)
                }) by {
                    let j = choose|j: int|
                        0 <= j < self.entries().len() && self.entries()[j].0 == c;
                    self.lemma_entry(j);
                    if c != coordinate {
                        old_map.lemma_entry(j);
                    }
                }
                assert(self@ =~= old_map@.insert(coordinate, room));
            }
        } else {
            self.rooms.insert(p, (coordinate, room));
            proof {
                assert(!old_map.has(coordinate)) by {
                    if old_map.has(coordinate) {
                        let j = choose|j: int|
                            0 <= j < old_map.entries().len() && old_map.entries()[j].0
                                == coordinate;
                        if j < p {
                            assert(coordinate_lt(old_map.entries()[j].0, coordinate));
                        } else if j > p {
                            assert(coordinate_lt(
                                old_map.entries()[p as int].0,
                                old_map.entries()[j].0,
                            ));
                        }
                    }
                }
                assert forall|i: int, j: int|
                    0 <= i < j < self.entries().len() implies coordinate_lt(
                    self.entries()[i].0,
                    self.entries()[j].0,
                ) by {
                    if j < p {
                    } else if j == p {
                    } else if i < p {
                        assert(coordinate_lt(old_map.entries()[i].0, coordinate));
                        assert(!coordinate_lt(old_map.entries()[j - 1].0, coordinate));
                    } else if i == p {
                        assert(!coordinate_lt(old_map.entries()[j - 1].0, coordinate));
                        assert(old_map.entries()[j - 1].0 != coordinate) by {
                            if old_map.entries()[j - 1].0 == coordinate {
                                assert(old_map.has(coordinate));
                            }
                        }
                    } else {
                        assert(coordinate_lt(old_map.entries()[i - 1].0, old_map.entries()[j - 1].0));
                    }
                }
                assert forall|c: Coordinate| self.has(c) == (old_map.has(c) || c == coordinate) by {
                    if old_map.has(c) {
                        let j = choose|j: int|
                            0 <= j < old_map.entries().len() && old_map.entries()[j].0 == c;
                        if j < p {
                            assert(self.entries()[j].0 == c);
                        } else {
                            assert(self.entries()[j + 1].0 == c);
                        }
                    }
                    if c == coordinate {
                        assert(self.entries()[p as int].0 == c);
                    }
                    if self.has(c) && c != coordinate {
                        let j = choose|j: int|
                            0 <= j < self.entries().len() && self.entries()[j].0 == c;
                        if j < p {
                            assert(old_map.entries()[j].0 == c);
                        } else {
                            assert(old_map.entries()[j - 1].0 == c);
                        }
                    }
                }
                assert forall|c: Coordinate| #[trigger] self.has(c) implies self.lookup(c) == (
                if c == coordinate {
                    room
                } else {
                    old_map.lookup(c)
                }) by {
                    let j = choose|j: int|
                        0 <= j < self.entries().len() && self.entries()[j].0 == c;
                    self.lemma_entry(j);
                    if c != coordinate {
                        if j < p {
                            old_map.lemma_entry(j);
                        } else {
                            old_map.lemma_entry(j - 1);
                        }
                    }
                }
                assert(self@ =~= old_map@.insert(coordinate, room));
            }
        }
    }

    /// The room at `coordinate`, if there is one.
    pub fn get_room(&self, coordinate: Coordinate) -> (r: Option<&T>)
        requires
            self.wf(),
        ensures
            r matches Some(v) ==> self@.contains_key(coordinate) && *v == self@[coordinate],
            r is None ==> !self@.contains_key(coordinate),
    {
        let p = self.position_of(coordinate);
        if p < self.rooms.len() && same_coordinate(self.rooms[p].0, coordinate) {
            proof {
                self.lemma_entry(p as int);
            }
            Some(&self.rooms[p].1)
        } else {
            proof {
                if self.has(coordinate) {
                    let j = choose|j: int|
                        0 <= j < self.entries().len() && self.entries()[j].0 == coordinate;
                    if j > p {
                        assert(coordinate_lt(self.entries()[p as int].0, self.entries()[j].0));
                    }
                }
            }
            None
        }
    }

    /// The room at `coordinate` for changing in place, if there is one.
    /// What the map holds afterwards follows from `lemma_replace_value`.
    pub fn get_room_mut(&mut self, coordinate: Coordinate) -> (r: Option<&mut T>)
        requires
            old(self).wf(),
        ensures
            r is None ==> !old(self)@.contains_key(coordinate) && final(self).entries() == old(
                self,
            ).entries(),
            r matches Some(v) ==> {
                &&& old(self)@.contains_key(coordinate)
                &&& *v == old(self)@[coordinate]
                &&& final(self).entries() == old(self).entries().update(
                    old(self).index_of(coordinate),
                    (coordinate, *final(v)),
                )
            },
    {
        let p = self.position_of(coordinate);
        if p < self.rooms.len() && same_coordinate(self.rooms[p].0, coordinate) {
            proof {
                self.lemma_entry(p as int);
            }
            let entry = &mut self.rooms[p];
            Some(&mut entry.1)
        } else {
            proof {
                if self.has(coordinate) {
                    let j = self.index_of(coordinate);
                    if j > p {
                        assert(coordinate_lt(self.entries()[p as int].0, self.entries()[j].0));
                    }
                }
            }
            None
        }
    }

    /// The room at `coordinate` for changing in place; when there is none,
    /// the room made by `f` is put there first.
    pub fn get_room_or_insert<F: FnOnce() -> T>(&mut self, coordinate: Coordinate, f: F) -> (r:
        &mut T)
        requires
            old(self).wf(),
            !old(self)@.contains_key(coordinate) ==> f.requires(()),
        ensures
            old(self)@.contains_key(coordinate) ==> {
                &&& *r == old(self)@[coordinate]
                &&& final(self).entries() == old(self).entries().update(
                    old(self).index_of(coordinate),
                    (coordinate, *final(r)),
                )
            },
            !old(self)@.contains_key(coordinate) ==> f.ensures((), *r),
            final(self).entries().len() == old(self).entries().len() + if old(
                self,
            )@.contains_key(coordinate) {
                0int
            } else {
                1int
            },
    {
        let p = self.position_of(coordinate);
        if p < self.rooms.len() && same_coordinate(self.rooms[p].0, coordinate) {
            proof {
                self.lemma_entry(p as int);
            }
            let entry = &mut self.rooms[p];
            &mut entry.1
        } else {
            let room = f();
            self.add_room(coordinate, room);
            let q = self.position_of(coordinate);
            proof {
                assert(self@.contains_key(coordinate));
                let j = self.index_of(coordinate);
                self.lemma_entry(j);
                if j < q {
                    assert(coordinate_lt(self.entries()[j].0, coordinate));
                } else if j > q {
                    assert(coordinate_lt(self.entries()[q as int].0, self.entries()[j].0));
                }
            }
            let entry = &mut self.rooms[q];
            &mut entry.1
        }
    }

    /// Whether a room stands at `coordinate`.
    pub fn has_room(&self, coordinate: Coordinate) -> (r: bool)
        requires
            self.wf(),
        ensures
            r == self@.contains_key(coordinate),
    {
        self.get_room(coordinate).is_some()
    }

    /// The coordinates of all rooms, in order.
    pub fn coordinates(&self) -> (r: Vec<Coordinate>)
        ensures
            r@.len() == self.entries().len(),
            forall|i: int| 0 <= i < r@.len() ==> r@[i] == self.entries()[i].0,
    {
        let mut r: Vec<Coordinate> = Vec::new();
        let mut i: usize = 0;
        while i < self.rooms.len()
            invariant
                i <= self.entries().len(),
                r@.len() == i,
                forall|k: int| 0 <= k < i ==> r@[k] == self.entries()[k].0,
            decreases self.entries().len() - i,
        {
            r.push(self.rooms[i].0);
            i = i + 1;
        }
        r
    }
}

/// The room at `c` has no exit open yet.
pub open spec fn closed_room(width: usize, height: usize) -> RoomGeneration {
    RoomGeneration {
        width,
        height,
        exit_north: false,
        exit_south: false,
        exit_east: false,
        exit_west: false,
    }
}

/// Every open exit leads to a room that has the opposite exit open.
pub open spec fn exits_reciprocal(m: Map<Coordinate, RoomGeneration>) -> bool {
    forall|c: Coordinate, d: Direction|
        #![trigger m[c].has_exit(d)]
        m.contains_key(c) && m[c].has_exit(d) ==> {
            &&& d.has_neighbour(c)
            &&& m.contains_key(d.neighbour(c))
            &&& m[d.neighbour(c)].has_exit(d.opposite())
        }
}

/// Every room of `m` has the given size.
pub open spec fn sizes_are(m: Map<Coordinate, RoomGeneration>, width: usize, height: usize) -> bool {
    forall|c: Coordinate| #[trigger]
        m.contains_key(c) ==> m[c].width == width && m[c].height == height
}

pub open spec fn abs(v: int) -> int {
    if v < 0 {
        -v
    } else {
        v
    }
}

/// Every coordinate of `m` is at most `n` steps from the origin.
pub open spec fn within(m: Map<Coordinate, RoomGeneration>, n: int) -> bool {
    forall|c: Coordinate| #[trigger] m.contains_key(c) ==> abs(c.0 as int) + abs(c.1 as int) <= n
}

/// Stepping in a direction and back returns to the start.
pub proof fn lemma_step_back(c: Coordinate, d: Direction)
    requires
        d.has_neighbour(c),
    ensures
        d.opposite().has_neighbour(d.neighbour(c)),
        d.opposite().neighbour(d.neighbour(c)) == c,
        d.neighbour(c) != c,
{
}

/// Opening a corridor from a room to a free neighbour keeps every exit
/// answered by the opposite exit.
proof fn lemma_corridor_reciprocal(
    m: Map<Coordinate, RoomGeneration>,
    from: Coordinate,
    d: Direction,
    fresh: RoomGeneration,
)
    requires
        exits_reciprocal(m),
        m.contains_key(from),
        d.has_neighbour(from),
        !m.contains_key(d.neighbour(from)),
        forall|e: Direction| fresh.has_exit(e) <==> e == d.opposite(),
    ensures
        exits_reciprocal(
            m.insert(from, m[from].with_exit(d)).insert(d.neighbour(from), fresh),
        ),
{
    let to = d.neighbour(from);
    let m2 = m.insert(from, m[from].with_exit(d)).insert(to, fresh);
    lemma_step_back(from, d);
    assert forall|c: Coordinate, e: Direction|
        #![trigger m2[c].has_exit(e)]
        m2.contains_key(c) && m2[c].has_exit(e) implies {
        &&& e.has_neighbour(c)
        &&& m2.contains_key(e.neighbour(c))
        &&& m2[e.neighbour(c)].has_exit(e.opposite())
    } by {
        if c == to {
            assert(e == d.opposite());
        } else if c == from && e == d {
        } else {
            assert(m[c].has_exit(e));
            let n = e.neighbour(c);
            assert(m.contains_key(n));
            assert(m[n].has_exit(e.opposite()));
            assert(n != to);
        }
    }
}

/// `p` is the path of the walk that laid out `m`, and `ds` its steps: it
/// starts at the origin, each step goes to the neighbour in its direction,
/// no coordinate comes twice, the rooms are exactly the coordinates of the
/// path, and each room has open exactly the exits towards the rooms before
/// and after it on the path.
pub open spec fn is_walk(m: Map<Coordinate, RoomGeneration>, p: Seq<Coordinate>, ds: Seq<Direction>) -> bool {
    &&& p.len() >= 1
    &&& ds.len() == p.len() - 1
    &&& p[0] == (0i32, 0i32)
    &&& p.no_duplicates()
    &&& forall|i: int|
        0 <= i < ds.len() ==> #[trigger] ds[i].has_neighbour(p[i]) && p[i + 1] == ds[i].neighbour(p[i])
    &&& forall|c: Coordinate| #[trigger] m.contains_key(c) <==> p.contains(c)
    &&& forall|i: int, d: Direction|
        0 <= i < p.len() ==> (#[trigger] m[p[i]].has_exit(d) <==> ((i < ds.len() && ds[i] == d) || (
        i > 0 && ds[i - 1].opposite() == d)))
}

/// Opening a corridor from the end of a walk to a free neighbour extends
/// the walk by that step.
proof fn lemma_walk_extends(
    before: Map<Coordinate, RoomGeneration>,
    after: Map<Coordinate, RoomGeneration>,
    p: Seq<Coordinate>,
    ds: Seq<Direction>,
    direction: Direction,
    width: usize,
    height: usize,
)
    requires
        is_walk(before, p, ds),
        direction.has_neighbour(p.last()),
        !before.contains_key(direction.neighbour(p.last())),
        after == before.insert(p.last(), before[p.last()].with_exit(direction)).insert(
            direction.neighbour(p.last()),
            closed_room(width, height).with_exit(direction.opposite()),
        ),
    ensures
        is_walk(after, p.push(direction.neighbour(p.last())), ds.push(direction)),
{
    let next = direction.neighbour(p.last());
    let k = p.len() as int;
    let longer_path = p.push(next);
    let longer_steps = ds.push(direction);
    assert(!p.contains(next)) by {
        if p.contains(next) {
            assert(before.contains_key(next));
        }
    }
    assert(longer_path.no_duplicates()) by {
        assert forall|i: int, j: int| 0 <= i < j < longer_path.len() implies longer_path[i] != longer_path[j] by {
            if j == k {
                assert(p.contains(p[i]));
            }
        }
    }
    assert forall|i: int| 0 <= i < longer_steps.len() implies #[trigger] longer_steps[i].has_neighbour(longer_path[i])
        && longer_path[i + 1] == longer_steps[i].neighbour(longer_path[i]) by {
        if i < ds.len() {
            assert(ds[i].has_neighbour(p[i]));
        }
    }
    assert forall|c: Coordinate| #[trigger] after.contains_key(c) <==> longer_path.contains(c) by {
        if longer_path.contains(c) && c != next {
            let j = choose|j: int| 0 <= j < longer_path.len() && longer_path[j] == c;
            assert(p[j] == c);
        }
        if after.contains_key(c) && c != next {
            assert(before.contains_key(c));
            let j = choose|j: int| 0 <= j < p.len() && p[j] == c;
            assert(longer_path[j] == c);
        }
        if c == next {
            assert(longer_path[k] == c);
        }
    }
    assert forall|i: int, d: Direction| 0 <= i < longer_path.len() implies (
    #[trigger] after[longer_path[i]].has_exit(d) <==> ((i < longer_steps.len() && longer_steps[i] == d) || (i > 0
        && longer_steps[i - 1].opposite() == d))) by {
        if i == k {
        } else if i == k - 1 {
            assert(before[p[i]].has_exit(d) <==> (i > 0 && ds[i - 1].opposite() == d));
        } else {
            assert(p[i] != p[k - 1]);
            assert(p.contains(p[i]));
            assert(before[p[i]].has_exit(d) <==> ((i < ds.len() && ds[i] == d) || (i
                > 0 && ds[i - 1].opposite() == d)));
        }
    }
}

/// Parameters of the dungeon walk. `splits` is accepted and not used.
#[derive(Clone, Copy, Debug, Default, PartialEq, Eq, Structural)]
pub struct DungeonGen {
    pub corridor_length: u32,
    pub splits: u32,
}

impl DungeonMap<RoomGeneration> {
    /// Links the room at `from` with a new room on its `direction` side:
    /// the exit towards the new room opens, and the new room, of the given
    /// size, has only the exit back open. Returns the new coordinate.
    pub fn open_corridor(
        &mut self,
        from: Coordinate,
        direction: Direction,
        width: usize,
        height: usize,
    ) -> (r: Coordinate)
        requires
            old(self).wf(),
            old(self)@.contains_key(from),
            direction.has_neighbour(from),
            !old(self)@.contains_key(direction.neighbour(from)),
        ensures
            final(self).wf(),
            r == direction.neighbour(from),
            final(self)@ == old(self)@.insert(from, old(self)@[from].with_exit(direction)).insert(
                r,
                closed_room(width, height).with_exit(direction.opposite()),
            ),
            final(self).entries().len() == old(self).entries().len() + 1,
    {
        let ghost before = *self;
        match self.get_room_mut(from) {
            Some(g) => direction.set_exit(g),
            None => {},
        }
        proof {
            let i = before.index_of(from);
            before.lemma_entry(i);
            DungeonMap::lemma_replace_value(before, *self, i);
        }
        let to = direction.add(from);
        let mut fresh = closed_room_of(width, height);
        direction.reverse().set_exit(&mut fresh);
        proof {
            lemma_step_back(from, direction);
        }
        self.add_room(to, fresh);
        to
    }

    /// Turns every room generation into a room, in coordinate order, each
    /// with its own draws. Fails when some room has a size the generator
    /// cannot fill.
    pub fn generate_map(&self, rng: &mut StdRng) -> (r: Result<DungeonMap<Room>, GenerationError>)
        requires
            self.wf(),
        ensures
            match r {
                Ok(m) => {
                    &&& m.wf()
                    &&& m@.dom() == self@.dom()
                    &&& forall|c: Coordinate| #[trigger]
                        self@.contains_key(c) ==> self@[c].size_ok() && self@[c].produces(m@[c])
                },
                Err(_) => exists|c: Coordinate| #[trigger]
                    self@.contains_key(c) && !self@[c].size_ok(),
            },
    {
        let mut out: Vec<(Coordinate, Room)> = Vec::new();
        let mut i: usize = 0;
        while i < self.rooms.len()
            invariant
                self.wf(),
                i <= self.entries().len(),
                out@.len() == i,
                forall|k: int|
                    #![trigger out@[k]]
                    0 <= k < i ==> out@[k].0 == self.entries()[k].0
                        && self.entries()[k].1.size_ok() && self.entries()[k].1.produces(
                        out@[k].1,
                    ),
            decreases self.entries().len() - i,
        {
            let coordinate = self.rooms[i].0;
            match self.rooms[i].1.generate_room(rng) {
                Ok(room) => {
                    out.push((coordinate, room));
                },
                Err(e) => {
                    proof {
                        self.lemma_entry(i as int);
                    }
                    return Err(e);
                },
            }
            i = i + 1;
        }
        let m = DungeonMap { rooms: out };
        proof {
            assert(m.entries() == out@);
            assert forall|k: int| 0 <= k < m.entries().len() implies m.entries()[k].0
                == self.entries()[k].0 && self.entries()[k].1.produces(m.entries()[k].1) by {
                assert(out@[k].0 == self.entries()[k].0);
            }
            assert forall|c: Coordinate| m.has(c) == self.has(c) by {
                if m.has(c) {
                    let k = m.index_of(c);
                    assert(self.entries()[k].0 == c);
                }
                if self.has(c) {
                    let k = self.index_of(c);
                    assert(m.entries()[k].0 == c);
                }
            }
            assert(m@.dom() =~= self@.dom());
            assert forall|c: Coordinate| #[trigger]
                self@.contains_key(c) implies self@[c].size_ok() && self@[c].produces(m@[c]) by {
                let k = self.index_of(c);
                self.lemma_entry(k);
                m.lemma_entry(k);
            }
        }
        Ok(m)
    }
}

/// Looks for a free neighbour of `coordinate`: up to eight directions are
/// drawn, and the first whose neighbour holds no room is taken.
fn free_direction(map: &DungeonMap<RoomGeneration>, coordinate: Coordinate, rng: &mut StdRng) -> (r:
    Option<Direction>)
    requires
        map.wf(),
        abs(coordinate.0 as int) + abs(coordinate.1 as int) < i32::MAX,
    ensures
        r matches Some(d) ==> d.has_neighbour(coordinate) && !map@.contains_key(
            d.neighbour(coordinate),
        ),
        (forall|d: Direction| !map@.contains_key(#[trigger] d.neighbour(coordinate))) ==> r is Some,
{
    let mut i: usize = 0;
    while i < 8
        invariant
            map.wf(),
            abs(coordinate.0 as int) + abs(coordinate.1 as int) < i32::MAX,
            i > 0 ==> !(forall|d: Direction| !map@.contains_key(#[trigger] d.neighbour(coordinate))),
        decreases 8 - i,
    {
        let direction = Direction::sample(rng);
        let new_coordinate = direction.add(coordinate);
        if !map.has_room(new_coordinate) {
            return Some(direction);
        }
        i = i + 1;
    }
    None
}

impl DungeonGen {
    /// Lays out the dungeon by a walk from `(0, 0)`. Each of the
    /// `corridor_length` steps looks for a free neighbour of the current
    /// room (up to eight random tries); when one is found the two rooms are
    /// linked by a pair of opposite exits and the walk moves on, else the
    /// step is lost. Every room has the given size.
    pub fn generate(&self, rng: &mut StdRng, width: usize, height: usize) -> (r: DungeonMap<
        RoomGeneration,
    >)
        requires
            self.corridor_length < i32::MAX,
        ensures
            r.wf(),
            r@.contains_key((0i32, 0i32)),
            sizes_are(r@, width, height),
            exits_reciprocal(r@),
            r.entries().len() <= self.corridor_length + 1,
            exists|p: Seq<Coordinate>, ds: Seq<Direction>|
                {
                    &&& #[trigger] is_walk(r@, p, ds)
                    &&& p.len() <= self.corridor_length + 1
                    &&& (self.corridor_length >= 1 ==> p.len() >= 2)
                },
    {
        let mut map: DungeonMap<RoomGeneration> = DungeonMap::new();
        let mut coordinate: Coordinate = (0, 0);
        map.add_room(coordinate, closed_room_of(width, height));
        let ghost mut p: Seq<Coordinate> = seq![(0i32, 0i32)];
        let ghost mut ds: Seq<Direction> = Seq::empty();
        proof {
            assert(map@ == Map::<Coordinate, RoomGeneration>::empty().insert(
                (0i32, 0i32),
                closed_room(width, height),
            ));
            assert forall|c: Coordinate| #[trigger] map@.contains_key(c) <==> p.contains(c) by {
                if c == (0i32, 0i32) {
                    assert(p[0] == c);
                }
            }
        }
        let mut n: u32 = 0;
        while n < self.corridor_length
            invariant
                self.corridor_length < i32::MAX,
                n <= self.corridor_length,
                map.wf(),
                map@.contains_key((0i32, 0i32)),
                map@.contains_key(coordinate),
                sizes_are(map@, width, height),
                exits_reciprocal(map@),
                within(map@, n as int),
                map.entries().len() <= n + 1,
                is_walk(map@, p, ds),
                p.len() <= n + 1,
                n >= 1 ==> p.len() >= 2,
                coordinate == p.last(),
            decreases self.corridor_length - n,
        {
            assert(abs(coordinate.0 as int) + abs(coordinate.1 as int) <= n);
            proof {
                if n == 0 {
                    assert(p.len() == 1);
                    assert forall|d: Direction| !map@.contains_key(#[trigger] d.neighbour(coordinate)) by {
                        lemma_step_back((0i32, 0i32), d);
                        if map@.contains_key(d.neighbour(coordinate)) {
                            assert(p.contains(d.neighbour(coordinate)));
                        }
                    }
                }
            }
            if let Some(direction) = free_direction(&map, coordinate, rng) {
                let ghost before = map@;
                proof {
                    lemma_corridor_reciprocal(
                        before,
                        coordinate,
                        direction,
                        closed_room(width, height).with_exit(direction.opposite()),
                    );
                }
                let next = map.open_corridor(coordinate, direction, width, height);
                assert(within(map@, n + 1)) by {
                    assert forall|c: Coordinate| #[trigger]
                        map@.contains_key(c) implies abs(c.0 as int) + abs(c.1 as int) <= n + 1 by {
                        if c != next && c != coordinate {
                            assert(before.contains_key(c));
                        }
                    }
                }
                proof {
                    lemma_walk_extends(before, map@, p, ds, direction, width, height);
                    p = p.push(next);
                    ds = ds.push(direction);
                }
                coordinate = next;
            }
            n = n + 1;
        }
        assert(is_walk(map@, p, ds));
        map
    }
}

/// A room generation of the given size with every exit closed.
fn closed_room_of(width: usize, height: usize) -> (r: RoomGeneration)
    ensures
        r == closed_room(width, height),
{
    RoomGeneration {
        width,
        height,
        exit_north: false,
        exit_south: false,
        exit_east: false,
        exit_west: false,
    }
}

} // verus!
