//! Rooms: a fixed grid of typed cells, and the generator that fills one.

use vstd::prelude::*;
use rand::rngs::StdRng;
use crate::map::Direction;
use crate::random::random_index;

verus! {

/// Where an exit leads: the room (relative to the current room, or
/// absolute) and the cell of that room where the player appears.
#[derive(Clone, Copy, Debug, PartialEq, Eq, Structural)]
pub enum DestRoom {
    Relative(isize, isize, i32, i32),
    Absolute(isize, isize, i32, i32),
}

/// Whether an integer fits in `i32`.
pub open spec fn fits_i32(v: int) -> bool {
    i32::MIN <= v <= i32::MAX
}

impl DestRoom {
    /// The room coordinate reached from room `c`.
    pub open spec fn target(self, c: (i32, i32)) -> (int, int) {
        match self {
            DestRoom::Relative(rx, ry, _, _) => (c.0 + rx, c.1 + ry),
            DestRoom::Absolute(ax, ay, _, _) => (ax as int, ay as int),
        }
    }

    /// The target of the exit from room `c` is a valid room coordinate.
    pub open spec fn resolvable(self, c: (i32, i32)) -> bool {
        fits_i32(self.target(c).0) && fits_i32(self.target(c).1)
    }

    pub open spec fn spawn(self) -> (i32, i32) {
        match self {
            DestRoom::Relative(_, _, x, y) => (x, y),
            DestRoom::Absolute(_, _, x, y) => (x, y),
        }
    }

    /// Resolves the destination against the coordinate of the room the
    /// exit is taken from.
    pub fn to_absolute_coordinates(&self, coordinate: (i32, i32)) -> (r: (i32, i32))
        requires
            self.resolvable(coordinate),
        ensures
            r.0 == self.target(coordinate).0,
            r.1 == self.target(coordinate).1,
    {
        match self {
            DestRoom::Relative(rel_x, rel_y, _, _) => (
                (coordinate.0 as isize + *rel_x) as i32,
                (coordinate.1 as isize + *rel_y) as i32,
            ),
            DestRoom::Absolute(abs_x, abs_y, _, _) => (*abs_x as i32, *abs_y as i32),
        }
    }

    /// The cell of the destination room where the player appears.
    pub fn spawn_point(&self) -> (r: (i32, i32))
        ensures
            r == self.spawn(),
    {
        match self {
            DestRoom::Relative(_, _, x, y) => (*x, *y),
            DestRoom::Absolute(_, _, x, y) => (*x, *y),
        }
    }
}

/// The content of one cell of a room.
#[derive(Clone, Copy, Debug, PartialEq, Eq, Structural)]
pub enum RoomField {
    Nothing,
    Wall,
    Stone,
    Bush,
    Player,
    Exit(DestRoom),
}

/// A grid of `width` x `height` cells, stored row by row.
#[derive(Clone, Debug)]
pub struct Room {
    pub width: usize,
    pub height: usize,
    pub fields: Vec<RoomField>,
}

/// Index of cell `(x, y)` in a grid of the given width, row by row.
pub open spec fn cell_index(width: int, x: int, y: int) -> int {
    x + y * width
}

/// Cells of a grid have distinct indices, all below `width * height`.
pub proof fn lemma_cell_index(width: int, height: int, x: int, y: int, a: int, b: int)
    requires
        0 <= x < width,
        0 <= y < height,
        0 <= a < width,
        0 <= b < height,
    ensures
        0 <= cell_index(width, x, y) < width * height,
        cell_index(width, x, y) == cell_index(width, a, b) ==> x == a && y == b,
{
    assert(0 <= y * width <= (height - 1) * width) by (nonlinear_arith)
        requires
            0 <= y < height,
            0 < width,
    ;
    assert((height - 1) * width + width == width * height) by (nonlinear_arith);
    if y < b {
        assert(y * width + width <= b * width) by (nonlinear_arith)
            requires
                y < b,
                0 < width,
        ;
    } else if b < y {
        assert(b * width + width <= y * width) by (nonlinear_arith)
            requires
                b < y,
                0 < width,
        ;
    }
}

impl Room {
    /// The grid holds exactly one value per cell.
    pub open spec fn wf(self) -> bool {
        &&& self.fields@.len() == self.width * self.height
        &&& self.width * self.height <= usize::MAX
    }

    pub open spec fn in_bounds(self, x: int, y: int) -> bool {
        0 <= x < self.width && 0 <= y < self.height
    }

    /// The value of cell `(x, y)`.
    pub open spec fn cell(self, x: int, y: int) -> RoomField {
        self.fields@[cell_index(self.width as int, x, y)]
    }

    /// A room of the given size with `Nothing` in every cell.
    pub fn new(width: usize, height: usize) -> (r: Room)
        requires
            width * height <= usize::MAX,
        ensures
            r.wf(),
            r.width == width,
            r.height == height,
            forall|x: int, y: int| r.in_bounds(x, y) ==> r.cell(x, y) == RoomField::Nothing,
    {
        let n: usize = width * height;
        let mut fields: Vec<RoomField> = Vec::new();
        let mut i: usize = 0;
        while i < n
            invariant
                i <= n,
                fields@.len() == i,
                forall|k: int| 0 <= k < i ==> fields@[k] == RoomField::Nothing,
            decreases n - i,
        {
            fields.push(RoomField::Nothing);
            i = i + 1;
        }
        let r = Room { width, height, fields };
        assert forall|x: int, y: int| r.in_bounds(x, y) implies r.cell(x, y)
            == RoomField::Nothing by {
            lemma_cell_index(width as int, height as int, x, y, x, y);
        }
        r
    }

    /// Sets cell `(x, y)`; a coordinate outside the grid changes nothing.
    pub fn set_field(&mut self, x: usize, y: usize, field: RoomField)
        requires
            old(self).wf(),
        ensures
            final(self).wf(),
            final(self).width == old(self).width,
            final(self).height == old(self).height,
            forall|a: int, b: int|
                final(self).in_bounds(a, b) ==> final(self).cell(a, b) == if a == x && b == y {
                    field
                } else {
                    old(self).cell(a, b)
                },
    {
        if x < self.width && y < self.height {
            proof {
                lemma_cell_index(self.width as int, self.height as int, x as int, y as int, 0, 0);
            }
            let index = x + y * self.width;
            self.fields.set(index, field);
            assert forall|a: int, b: int| self.in_bounds(a, b) implies self.cell(a, b) == if a
                == x && b == y {
                field
            } else {
                old(self).cell(a, b)
            } by {
                lemma_cell_index(self.width as int, self.height as int, x as int, y as int, a, b);
                lemma_cell_index(self.width as int, self.height as int, a, b, a, b);
            }
        }
    }

    /// The value of cell `(x, y)`, or `None` outside the grid.
    pub fn get_field(&self, x: usize, y: usize) -> (r: Option<RoomField>)
        requires
            self.wf(),
        ensures
            r == if self.in_bounds(x as int, y as int) {
                Some(self.cell(x as int, y as int))
            } else {
                None
            },
    {
        if x < self.width && y < self.height {
            proof {
                lemma_cell_index(self.width as int, self.height as int, x as int, y as int, 0, 0);
            }
            let index = x + y * self.width;
            Some(self.fields[index])
        } else {
            None
        }
    }

    /// Walks all cells, row by row from `(0, 0)`.
    pub fn room_field_iterator(&self) -> (r: RoomFieldIterator<'_>)
        requires
            self.wf(),
        ensures
            r.wf(),
            *r.room() == *self,
            r.position() == 0,
    {
        RoomFieldIterator { x: 0, y: 0, room: self }
    }
}

/// Cursor over the cells of a room, row by row.
pub struct RoomFieldIterator<'a> {
    room: &'a Room,
    x: usize,
    y: usize,
}

impl<'a> RoomFieldIterator<'a> {
    pub closed spec fn room(self) -> &'a Room {
        self.room
    }

    /// Number of cells handed out so far.
    pub closed spec fn position(self) -> int {
        cell_index(self.room.width as int, self.x as int, self.y as int)
    }

    pub closed spec fn wf(self) -> bool {
        &&& self.room.wf()
        &&& (self.x < self.room.width || self.x == 0)
        &&& self.y <= self.room.height
    }

    /// The next cell with its coordinate, or `None` once every cell has
    /// been handed out.
    pub fn next(&mut self) -> (r: Option<(usize, usize, RoomField)>)
        requires
            old(self).wf(),
        ensures
            final(self).wf(),
            final(self).room() == old(self).room(),
            old(self).position() < old(self).room().width * old(self).room().height ==> {
                let w = old(self).room().width as int;
                let p = old(self).position();
                &&& r matches Some(t)
                &&& t.0 == p % w
                &&& t.1 == p / w
                &&& t.2 == old(self).room().cell(p % w, p / w)
                &&& final(self).position() == p + 1
            },
            old(self).position() >= old(self).room().width * old(self).room().height ==> r is None
                && final(self).position() == old(self).position(),
    {
        let w = self.room.width;
        let h = self.room.height;
        if w == 0 || self.y >= h {
            proof {
                if w > 0 {
                    assert(self.y * w >= h * w) by (nonlinear_arith)
                        requires
                            self.y >= h,
                            w > 0,
                    ;
                }
            }
            return None;
        }
        let x = self.x;
        let y = self.y;
        proof {
            lemma_cell_index(w as int, h as int, x as int, y as int, 0, 0);
            vstd::arithmetic::div_mod::lemma_fundamental_div_mod_converse(
                cell_index(w as int, x as int, y as int),
                w as int,
                y as int,
                x as int,
            );
        }
        let field = self.room.fields[x + y * w];
        if x + 1 >= w {
            proof {
                assert((y + 1) * w == y * w + w) by (nonlinear_arith);
            }
            self.x = 0;
            self.y = y + 1;
        } else {
            self.x = x + 1;
        }
        Some((x, y, field))
    }
}

/// Reasons why a room cannot be generated.
#[derive(Clone, Copy, Debug, PartialEq, Eq, Structural)]
pub enum GenerationError {
    /// Width or height below the smallest size with an interior.
    RoomTooSmall,
    /// Width or height beyond `i32`, or more cells than `usize` counts.
    RoomTooLarge,
}

/// Smallest width and height of a generated room: the border and a margin
/// of one cell must leave room for the interior.
pub const MIN_ROOM_SIDE: usize = 6;

/// Parameters of one room: its size and which of its four exits are open.
#[derive(Clone, Copy, Debug, Default, PartialEq, Eq, Structural)]
pub struct RoomGeneration {
    pub width: usize,
    pub height: usize,
    pub exit_north: bool,
    pub exit_south: bool,
    pub exit_east: bool,
    pub exit_west: bool,
}

/// The random choices that shape a room: where stones, bushes and the
/// player are put.
#[derive(Debug)]
pub struct RoomDraws {
    pub stones: Vec<(usize, usize)>,
    pub bushes: Vec<(usize, usize)>,
    pub player: (usize, usize),
}

/// Whether one of the first `n` positions of `s` is `(x, y)`.
pub open spec fn covers(s: Seq<(usize, usize)>, n: int, x: int, y: int) -> bool {
    exists|k: int| 0 <= k < n && s[k].0 == x && s[k].1 == y
}

impl RoomGeneration {
    pub open spec fn too_small(self) -> bool {
        self.width < MIN_ROOM_SIDE || self.height < MIN_ROOM_SIDE
    }

    pub open spec fn too_large(self) -> bool {
        self.width > i32::MAX || self.height > i32::MAX || self.width * self.height > usize::MAX
    }

    /// The size admits a generated room.
    pub open spec fn size_ok(self) -> bool {
        !self.too_small() && !self.too_large()
    }

    /// The same generation with the exit on `side` open.
    pub open spec fn with_exit(self, side: Direction) -> RoomGeneration {
        RoomGeneration {
            exit_north: self.exit_north || side == Direction::North,
            exit_south: self.exit_south || side == Direction::South,
            exit_east: self.exit_east || side == Direction::East,
            exit_west: self.exit_west || side == Direction::West,
            ..self
        }
    }

    pub open spec fn has_exit(self, side: Direction) -> bool {
        match side {
            Direction::North => self.exit_north,
            Direction::South => self.exit_south,
            Direction::East => self.exit_east,
            Direction::West => self.exit_west,
        }
    }

    /// The cell of the border where the exit on `side` sits: the middle of
    /// that edge. North is the top row, `y == height - 1`.
    pub open spec fn exit_cell(self, side: Direction) -> (int, int) {
        let w = self.width as int;
        let h = self.height as int;
        match side {
            Direction::North => (w / 2, h - 1),
            Direction::South => (w / 2, 0),
            Direction::East => (w - 1, h / 2),
            Direction::West => (0, h / 2),
        }
    }

    /// Where the exit on `side` leads: the neighbouring room one step away
    /// on that side, and the cell just inside the opposite edge of it.
    pub open spec fn exit_destination(self, side: Direction) -> DestRoom {
        let w = self.width as int;
        let h = self.height as int;
        match side {
            Direction::North => DestRoom::Relative(0, -1isize, (w / 2) as i32, 1),
            Direction::South => DestRoom::Relative(0, 1, (w / 2) as i32, (h - 2) as i32),
            Direction::East => DestRoom::Relative(1, 0, 1, (h / 2) as i32),
            Direction::West => DestRoom::Relative(-1isize, 0, (w - 2) as i32, (h / 2) as i32),
        }
    }

    /// Whether `(x, y)` is the cell of an open exit on `side`.
    pub open spec fn is_exit_at(self, side: Direction, x: int, y: int) -> bool {
        self.has_exit(side) && self.exit_cell(side) == (x, y)
    }

    pub open spec fn is_border(self, x: int, y: int) -> bool {
        x == 0 || y == 0 || x == self.width - 1 || y == self.height - 1
    }

    /// The value of a border cell: an exit where one is open, else a wall.
    pub open spec fn border_cell(self, x: int, y: int) -> RoomField {
        if self.is_exit_at(Direction::North, x, y) {
            RoomField::Exit(self.exit_destination(Direction::North))
        } else if self.is_exit_at(Direction::South, x, y) {
            RoomField::Exit(self.exit_destination(Direction::South))
        } else if self.is_exit_at(Direction::East, x, y) {
            RoomField::Exit(self.exit_destination(Direction::East))
        } else if self.is_exit_at(Direction::West, x, y) {
            RoomField::Exit(self.exit_destination(Direction::West))
        } else {
            RoomField::Wall
        }
    }

    /// Whether `(x, y)` lies in the range where stones, bushes and the
    /// player are put: `2 <= x < width - 3`, `2 <= y < height - 3`.
    pub open spec fn in_interior(self, x: int, y: int) -> bool {
        2 <= x < self.width - 3 && 2 <= y < self.height - 3
    }

    pub open spec fn all_in_interior(self, s: Seq<(usize, usize)>) -> bool {
        forall|k: int| 0 <= k < s.len() ==> self.in_interior(s[k].0 as int, s[k].1 as int)
    }

    /// The draws put everything in the interior.
    pub open spec fn valid_draws(
        self,
        stones: Seq<(usize, usize)>,
        bushes: Seq<(usize, usize)>,
        player: (usize, usize),
    ) -> bool {
        &&& self.all_in_interior(stones)
        &&& self.all_in_interior(bushes)
        &&& self.in_interior(player.0 as int, player.1 as int)
    }

    /// The cell `(x, y)` of the room laid out from the given draws: border
    /// as above; inside, the player wins over bushes, bushes over stones.
    pub open spec fn layout_cell(
        self,
        stones: Seq<(usize, usize)>,
        bushes: Seq<(usize, usize)>,
        player: (usize, usize),
        x: int,
        y: int,
    ) -> RoomField {
        if self.is_border(x, y) {
            self.border_cell(x, y)
        } else if player.0 == x && player.1 == y {
            RoomField::Player
        } else if covers(bushes, bushes.len() as int, x, y) {
            RoomField::Bush
        } else if covers(stones, stones.len() as int, x, y) {
            RoomField::Stone
        } else {
            RoomField::Nothing
        }
    }

    /// `room` is the layout of this generation for the given draws.
    pub open spec fn lays_out(
        self,
        room: Room,
        stones: Seq<(usize, usize)>,
        bushes: Seq<(usize, usize)>,
        player: (usize, usize),
    ) -> bool {
        &&& room.wf()
        &&& room.width == self.width
        &&& room.height == self.height
        &&& forall|x: int, y: int|
            room.in_bounds(x, y) ==> room.cell(x, y) == self.layout_cell(
                stones,
                bushes,
                player,
                x,
                y,
            )
    }

    /// `room` is one of the rooms the generator can make from this
    /// generation: between five and seven stones and bushes each, and the
    /// player, all in the interior.
    pub open spec fn produces(self, room: Room) -> bool {
        exists|stones: Seq<(usize, usize)>, bushes: Seq<(usize, usize)>, player: (usize, usize)|
            {
                &&& 5 <= stones.len() < 8
                &&& 5 <= bushes.len() < 8
                &&& self.valid_draws(stones, bushes, player)
                &&& #[trigger] self.lays_out(room, stones, bushes, player)
            }
    }

    /// Lays out the room from given draws: walls round the edge, the open
    /// exits in the middle of their edges, then stones, bushes and the
    /// player in that order, a later one replacing an earlier one.
    pub fn build_room(&self, draws: &RoomDraws) -> (r: Room)
        requires
            self.size_ok(),
            self.valid_draws(draws.stones@, draws.bushes@, draws.player),
        ensures
            self.lays_out(r, draws.stones@, draws.bushes@, draws.player),
    {
        let w = self.width;
        let h = self.height;
        let mut room = Room::new(w, h);

        let mut i: usize = 0;
        while i < w
            invariant
                room.wf(),
                room.width == w,
                room.height == h,
                w >= MIN_ROOM_SIDE,
                h >= MIN_ROOM_SIDE,
                i <= w,
                forall|a: int, b: int|
                    room.in_bounds(a, b) ==> room.cell(a, b) == if (b == 0 || b == h - 1) && a
                        < i {
                        RoomField::Wall
                    } else {
                        RoomField::Nothing
                    },
            decreases w - i,
        {
            room.set_field(i, 0, RoomField::Wall);
            room.set_field(i, h - 1, RoomField::Wall);
            i = i + 1;
        }
        let mut j: usize = 0;
        while j < h
            invariant
                room.wf(),
                room.width == w,
                room.height == h,
                w >= MIN_ROOM_SIDE,
                h >= MIN_ROOM_SIDE,
                j <= h,
                forall|a: int, b: int|
                    room.in_bounds(a, b) ==> room.cell(a, b) == if b == 0 || b == h - 1 || ((a
                        == 0 || a == w - 1) && b < j) {
                        RoomField::Wall
                    } else {
                        RoomField::Nothing
                    },
            decreases h - j,
        {
            room.set_field(0, j, RoomField::Wall);
            room.set_field(w - 1, j, RoomField::Wall);
            j = j + 1;
        }

        if self.exit_north {
            room.set_field(w / 2, h - 1, RoomField::Exit(DestRoom::Relative(0, -1, w as i32 / 2, 1)));
        }
        if self.exit_south {
            room.set_field(
                w / 2,
                0,
                RoomField::Exit(DestRoom::Relative(0, 1, w as i32 / 2, h as i32 - 2)),
            );
        }
        if self.exit_east {
            room.set_field(w - 1, h / 2, RoomField::Exit(DestRoom::Relative(1, 0, 1, h as i32 / 2)));
        }
        if self.exit_west {
            room.set_field(
                0,
                h / 2,
                RoomField::Exit(DestRoom::Relative(-1, 0, w as i32 - 2, h as i32 / 2)),
            );
        }
        assert forall|a: int, b: int| room.in_bounds(a, b) implies room.cell(a, b) == if self.is_border(
            a,
            b,
        ) {
            self.border_cell(a, b)
        } else {
            RoomField::Nothing
        } by {}

        let stones = &draws.stones;
        let mut k: usize = 0;
        while k < stones.len()
            invariant
                self.size_ok(),
                self.valid_draws(draws.stones@, draws.bushes@, draws.player),
                stones@ == draws.stones@,
                room.wf(),
                room.width == w,
                room.height == h,
                w == self.width,
                h == self.height,
                k <= stones.len(),
                forall|a: int, b: int|
                    room.in_bounds(a, b) ==> room.cell(a, b) == if self.is_border(a, b) {
                        self.border_cell(a, b)
                    } else if covers(stones@, k as int, a, b) {
                        RoomField::Stone
                    } else {
                        RoomField::Nothing
                    },
            decreases stones.len() - k,
        {
            let p = stones[k];
            room.set_field(p.0, p.1, RoomField::Stone);
            assert forall|a: int, b: int|
                #![trigger covers(stones@, k + 1, a, b)]
                covers(stones@, k + 1, a, b) == (covers(stones@, k as int, a, b) || (p.0 == a
                    && p.1 == b)) by {
                if p.0 == a && p.1 == b {
                    assert(stones@[k as int].0 == a && stones@[k as int].1 == b);
                }
                if covers(stones@, k + 1, a, b) && !(p.0 == a && p.1 == b) {
                    let q = choose|q: int| 0 <= q < k + 1 && stones@[q].0 == a && stones@[q].1 == b;
                    assert(q < k);
                }
            }
            k = k + 1;
        }

        let bushes = &draws.bushes;
        let mut k: usize = 0;
        while k < bushes.len()
            invariant
                self.size_ok(),
                self.valid_draws(draws.stones@, draws.bushes@, draws.player),
                stones@ == draws.stones@,
                bushes@ == draws.bushes@,
                room.wf(),
                room.width == w,
                room.height == h,
                w == self.width,
                h == self.height,
                k <= bushes.len(),
                forall|a: int, b: int|
                    room.in_bounds(a, b) ==> room.cell(a, b) == if self.is_border(a, b) {
                        self.border_cell(a, b)
                    } else if covers(bushes@, k as int, a, b) {
                        RoomField::Bush
                    } else if covers(stones@, stones@.len() as int, a, b) {
                        RoomField::Stone
                    } else {
                        RoomField::Nothing
                    },
            decreases bushes.len() - k,
        {
            let p = bushes[k];
            room.set_field(p.0, p.1, RoomField::Bush);
            assert forall|a: int, b: int|
                #![trigger covers(bushes@, k + 1, a, b)]
                covers(bushes@, k + 1, a, b) == (covers(bushes@, k as int, a, b) || (p.0 == a
                    && p.1 == b)) by {
                if p.0 == a && p.1 == b {
                    assert(bushes@[k as int].0 == a && bushes@[k as int].1 == b);
                }
                if covers(bushes@, k + 1, a, b) && !(p.0 == a && p.1 == b) {
                    let q = choose|q: int| 0 <= q < k + 1 && bushes@[q].0 == a && bushes@[q].1 == b;
                    assert(q < k);
                }
            }
            k = k + 1;
        }

        room.set_field(draws.player.0, draws.player.1, RoomField::Player);
        room
    }

    /// Draws `count` positions in the interior.
    fn draw_positions(&self, rng: &mut StdRng, count: usize) -> (r: Vec<(usize, usize)>)
        requires
            self.size_ok(),
        ensures
            r@.len() == count,
            self.all_in_interior(r@),
    {
        let mut r: Vec<(usize, usize)> = Vec::new();
        let mut i: usize = 0;
        while i < count
            invariant
                self.size_ok(),
                i <= count,
                r@.len() == i,
                self.all_in_interior(r@),
            decreases count - i,
        {
            let x = random_index(rng, 2, self.width - 3);
            let y = random_index(rng, 2, self.height - 3);
            r.push((x, y));
            i = i + 1;
        }
        r
    }

    /// Draws the stones, the bushes and the player position, in that order:
    /// five to seven of each kind of obstacle.
    pub fn draw_layout(&self, rng: &mut StdRng) -> (r: RoomDraws)
        requires
            self.size_ok(),
        ensures
            5 <= r.stones@.len() < 8,
            5 <= r.bushes@.len() < 8,
            self.valid_draws(r.stones@, r.bushes@, r.player),
    {
        let n_stones = random_index(rng, 5, 8);
        let stones = self.draw_positions(rng, n_stones);
        let n_bushes = random_index(rng, 5, 8);
        let bushes = self.draw_positions(rng, n_bushes);
        let x = random_index(rng, 2, self.width - 3);
        let y = random_index(rng, 2, self.height - 3);
        RoomDraws { stones, bushes, player: (x, y) }
    }

    /// Generates a room: the border with its open exits, five to seven
    /// stones, five to seven bushes and the player at random interior cells.
    /// A size the generator cannot fill is refused.
    pub fn generate_room(&self, rng: &mut StdRng) -> (r: Result<Room, GenerationError>)
        ensures
            match r {
                Ok(room) => {
                    &&& self.size_ok()
                    &&& self.produces(room)
                    &&& forall|x: int, y: int|
                        room.in_bounds(x, y) && self.is_border(x, y) ==> room.cell(x, y)
                            == self.border_cell(x, y)
                },
                Err(e) => {
                    &&& !self.size_ok()
                    &&& (e == GenerationError::RoomTooSmall <==> self.too_small())
                },
            },
    {
        if self.width < MIN_ROOM_SIDE || self.height < MIN_ROOM_SIDE {
            return Err(GenerationError::RoomTooSmall);
        }
        if self.width > i32::MAX as usize || self.height > i32::MAX as usize {
            return Err(GenerationError::RoomTooLarge);
        }
        if self.width > usize::MAX / self.height {
            proof {
                assert(self.width * self.height > usize::MAX) by (nonlinear_arith)
                    requires
                        self.width > usize::MAX / self.height,
                        self.height > 0,
                ;
            }
            return Err(GenerationError::RoomTooLarge);
        }
        proof {
            assert(self.width * self.height <= usize::MAX) by (nonlinear_arith)
                requires
                    self.width <= usize::MAX / self.height,
                    self.height > 0,
            ;
        }
        let draws = self.draw_layout(rng);
        let room = self.build_room(&draws);
        assert(self.lays_out(room, draws.stones@, draws.bushes@, draws.player));
        Ok(room)
    }
}

/// In a generated room, the middle cell of the edge on each side with an
/// open exit is that exit, and every other border cell is a wall.
pub proof fn lemma_generated_border(g: RoomGeneration, room: Room, x: int, y: int)
    requires
        g.size_ok(),
        g.produces(room),
        room.in_bounds(x, y),
        g.is_border(x, y),
    ensures
        forall|side: Direction|
            #[trigger] g.is_exit_at(side, x, y) ==> room.cell(x, y) == RoomField::Exit(
                g.exit_destination(side),
            ),
        (forall|side: Direction| !#[trigger] g.is_exit_at(side, x, y)) ==> room.cell(x, y)
            == RoomField::Wall,
{
    let (stones, bushes, player) = choose|
        stones: Seq<(usize, usize)>,
        bushes: Seq<(usize, usize)>,
        player: (usize, usize),
    |
        {
            &&& 5 <= stones.len() < 8
            &&& 5 <= bushes.len() < 8
            &&& g.valid_draws(stones, bushes, player)
            &&& #[trigger] g.lays_out(room, stones, bushes, player)
        };
    assert(room.cell(x, y) == g.border_cell(x, y));
    assert(!g.is_exit_at(Direction::North, x, y) || !g.is_exit_at(Direction::South, x, y));
}

/// Taking the exit on `side` from room `c` leads to the neighbour on that
/// side; taking the opposite exit of any room from there leads back to `c`.
pub proof fn lemma_exit_round_trip(a: RoomGeneration, b: RoomGeneration, side: Direction, c: (i32, i32))
    requires
        side.has_neighbour(c),
    ensures
        a.exit_destination(side).resolvable(c),
        a.exit_destination(side).target(c) == side.step(c),
        b.exit_destination(side.opposite()).resolvable(side.neighbour(c)),
        b.exit_destination(side.opposite()).target(side.neighbour(c)) == (c.0 as int, c.1 as int),
{
}

/// A room is fully determined by its generation and the values drawn: two
/// rooms laid out from the same generation and the same draws have the
/// same size and the same cells.
pub proof fn lemma_layout_determined(
    g: RoomGeneration,
    a: Room,
    b: Room,
    stones: Seq<(usize, usize)>,
    bushes: Seq<(usize, usize)>,
    player: (usize, usize),
)
    requires
        g.lays_out(a, stones, bushes, player),
        g.lays_out(b, stones, bushes, player),
    ensures
        a.width == b.width,
        a.height == b.height,
        a.fields@ == b.fields@,
{
    let w = a.width as int;
    assert forall|k: int| 0 <= k < a.fields@.len() implies a.fields@[k] == b.fields@[k] by {
        let x = k % w;
        let y = k / w;
        assert(w > 0) by {
            if w == 0 {
                assert(a.fields@.len() == 0);
            }
        }
        vstd::arithmetic::div_mod::lemma_fundamental_div_mod(k, w);
        assert(y < a.height) by {
            if y >= a.height {
                assert(y * w >= a.height * w) by (nonlinear_arith)
                    requires
                        y >= a.height,
                        w > 0,
                ;
                assert(a.height * w == a.width * a.height) by (nonlinear_arith)
                    requires
                        w == a.width,
                ;
            }
        }
        assert(cell_index(w, x, y) == k) by (nonlinear_arith)
            requires
                k == w * (k / w) + k % w,
                x == k % w,
                y == k / w,
        ;
        assert(a.in_bounds(x, y));
        assert(a.cell(x, y) == b.cell(x, y));
    }
    assert(a.fields@ =~= b.fields@);
}

} // verus!
