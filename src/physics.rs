//! Movement of bodies and axis-aligned collision resolution.

use vstd::prelude::*;

verus! {

/// Largest magnitude of a position accepted by a tick.
pub const COORD_LIMIT: i64 = 1099511627776;

/// Largest magnitude of a rectangle edge, relative to its body.
pub const EXTENT_LIMIT: i64 = 1073741824;

/// Largest magnitude of a velocity component.
pub const SPEED_LIMIT: i64 = 1048576;

/// Longest tick.
pub const TICK_LIMIT: i64 = 65536;

/// Most bodies in one tick.
pub const BODY_LIMIT: usize = 65536;

/// Sent when a movable body touches a solid one: the ids of the movable
/// body and of the solid.
#[derive(Clone, Copy, Debug, PartialEq, Eq, Structural)]
pub enum Collision {
    Solid(u32, u32),
}

/// A velocity, per millisecond.
#[derive(Clone, Copy, Debug, PartialEq, Eq, Structural)]
pub struct Velocity {
    pub x: i64,
    pub y: i64,
}

/// Velocity of a movable body.
#[derive(Clone, Copy, Debug, PartialEq, Eq, Structural)]
pub struct Physics {
    pub velocity: Velocity,
}

impl Physics {
    /// A body at rest.
    pub fn new() -> (r: Self)
        ensures
            r.velocity == (Velocity { x: 0, y: 0 }),
    {
        Physics { velocity: Velocity { x: 0, y: 0 } }
    }
}

/// The extent of a body, as edges relative to its position.
#[derive(Clone, Copy, Debug, PartialEq, Eq, Structural)]
pub struct BoundingRect {
    pub left: i64,
    pub right: i64,
    pub top: i64,
    pub bottom: i64,
}

impl BoundingRect {
    pub fn new(left: i64, right: i64, bottom: i64, top: i64) -> (r: Self)
        ensures
            r == (BoundingRect { left, right, top, bottom }),
    {
        BoundingRect { left, right, bottom, top }
    }

    /// Edges within the accepted extent, left not after right, bottom not
    /// above top.
    pub open spec fn wf(self) -> bool {
        &&& -EXTENT_LIMIT <= self.left <= self.right <= EXTENT_LIMIT
        &&& -EXTENT_LIMIT <= self.bottom <= self.top <= EXTENT_LIMIT
    }

    pub fn width(&self) -> (r: i64)
        requires
            i64::MIN <= self.right - self.left <= i64::MAX,
        ensures
            r == self.right - self.left,
    {
        self.right - self.left
    }

    pub fn height(&self) -> (r: i64)
        requires
            i64::MIN <= self.top - self.bottom <= i64::MAX,
        ensures
            r == self.top - self.bottom,
    {
        self.top - self.bottom
    }
}

/// Marks a body that movable bodies cannot enter.
#[derive(Clone, Copy, Debug, PartialEq, Eq, Structural)]
pub struct Solid;

/// One entity as the resolver sees it: its position and depth, and the
/// components that make it movable (`physics`), collidable (`rect`) and
/// blocking (`solid`).
#[derive(Clone, Copy, Debug, PartialEq, Eq, Structural)]
pub struct Body {
    pub id: u32,
    pub x: i64,
    pub y: i64,
    pub depth: i64,
    pub physics: Option<Physics>,
    pub rect: Option<BoundingRect>,
    pub solid: bool,
}

pub open spec fn min(a: int, b: int) -> int {
    if a < b {
        a
    } else {
        b
    }
}

pub open spec fn max(a: int, b: int) -> int {
    if a > b {
        a
    } else {
        b
    }
}

/// How far the intervals `[a_lo, a_hi]` and `[b_lo, b_hi]` overlap: the sum
/// of their lengths less the length of the interval that spans both.
pub open spec fn overlap_depth(a_lo: int, a_hi: int, b_lo: int, b_hi: int) -> int {
    (a_hi - a_lo) + (b_hi - b_lo) - (max(a_hi, b_hi) - min(a_lo, b_lo))
}

impl Body {
    pub open spec fn velocity(self) -> (int, int) {
        match self.physics {
            Some(p) => (p.velocity.x as int, p.velocity.y as int),
            None => (0, 0),
        }
    }

    pub open spec fn bounds(self) -> BoundingRect {
        match self.rect {
            Some(r) => r,
            None => BoundingRect { left: 0, right: 0, top: 0, bottom: 0 },
        }
    }

    /// Has a velocity and a rectangle: it moves and is stopped by solids.
    pub open spec fn is_movable(self) -> bool {
        self.physics is Some && self.rect is Some
    }

    /// Has a rectangle and blocks movable bodies.
    pub open spec fn is_solid(self) -> bool {
        self.solid && self.rect is Some
    }

    /// Penetration of `self` into `other` along x and along y.
    pub open spec fn penetration(self, other: Body) -> (int, int) {
        let a = self.bounds();
        let b = other.bounds();
        (
            overlap_depth(
                self.x + a.left,
                self.x + a.right,
                other.x + b.left,
                other.x + b.right,
            ),
            overlap_depth(
                self.y + a.bottom,
                self.y + a.top,
                other.y + b.bottom,
                other.y + b.top,
            ),
        )
    }

    /// A movable `self` overlaps a solid `other`.
    pub open spec fn collides(self, other: Body) -> bool {
        self.is_movable() && other.is_solid() && self.penetration(other).0 > 0
            && self.penetration(other).1 > 0
    }

    /// The push that moves `self` out of `other`: along the axis of the
    /// smaller penetration (x when both are equal), against the direction
    /// of travel on that axis. None when they do not collide.
    pub open spec fn correction(self, other: Body) -> (int, int) {
        if self.collides(other) {
            let (ix, iy) = self.penetration(other);
            if ix > iy {
                (0, if self.velocity().1 > 0 { -iy } else { iy })
            } else {
                (if self.velocity().0 > 0 { -ix } else { ix }, 0)
            }
        } else {
            (0, 0)
        }
    }

    /// The position after moving for `dt` at the body's velocity.
    pub open spec fn integrated(self, dt: int) -> Body {
        match self.physics {
            Some(p) => {
                let y = self.y + p.velocity.y * dt;
                Body {
                    x: (self.x + p.velocity.x * dt) as i64,
                    y: y as i64,
                    depth: (-y) as i64,
                    ..self
                }
            },
            None => self,
        }
    }

    /// Values a tick accepts.
    pub open spec fn within_limits(self) -> bool {
        &&& -COORD_LIMIT <= self.x <= COORD_LIMIT
        &&& -COORD_LIMIT <= self.y <= COORD_LIMIT
        &&& (self.physics matches Some(p) ==> -SPEED_LIMIT <= p.velocity.x <= SPEED_LIMIT
            && -SPEED_LIMIT <= p.velocity.y <= SPEED_LIMIT)
        &&& (self.rect matches Some(r) ==> r.wf())
    }
}

/// The bodies after every movable one moved for `dt`.
pub open spec fn integrate_all(bodies: Seq<Body>, dt: int) -> Seq<Body> {
    Seq::new(bodies.len(), |i: int| bodies[i].integrated(dt))
}

/// Sum of the pushes on body `i` from bodies `0..n` other than itself.
pub open spec fn correction_sum(s: Seq<Body>, i: int, n: int) -> (int, int)
    decreases n,
{
    if n <= 0 {
        (0, 0)
    } else {
        let prev = correction_sum(s, i, n - 1);
        let c = if n - 1 != i {
            s[i].correction(s[n - 1])
        } else {
            (0, 0)
        };
        (prev.0 + c.0, prev.1 + c.1)
    }
}

/// Collisions of body `i` with bodies `0..n` other than itself, in order.
pub open spec fn contacts(s: Seq<Body>, i: int, n: int) -> Seq<Collision>
    decreases n,
{
    if n <= 0 {
        Seq::empty()
    } else if n - 1 != i && s[i].collides(s[n - 1]) {
        contacts(s, i, n - 1).push(Collision::Solid(s[i].id, s[n - 1].id))
    } else {
        contacts(s, i, n - 1)
    }
}

/// Collisions of bodies `0..m` with all others, body by body.
pub open spec fn all_contacts(s: Seq<Body>, m: int) -> Seq<Collision>
    decreases m,
{
    if m <= 0 {
        Seq::empty()
    } else {
        all_contacts(s, m - 1) + contacts(s, m - 1, s.len() as int)
    }
}

/// Body `i` at the end of a tick, from the integrated bodies `s`: pushed
/// out of the solids it entered, depth following `y`, velocity used up.
pub open spec fn settled(s: Seq<Body>, i: int) -> Body {
    let b = s[i];
    match b.physics {
        Some(p) => {
            let c = correction_sum(s, i, s.len() as int);
            let y = b.y + c.1;
            Body {
                x: (b.x + c.0) as i64,
                y: y as i64,
                depth: (-y) as i64,
                physics: Some(Physics { velocity: Velocity { x: 0, y: 0 } }),
                ..b
            }
        },
        None => b,
    }
}

/// Every body within limits, not too many, a tick of accepted length.
pub open spec fn tick_accepted(bodies: Seq<Body>, dt: int) -> bool {
    &&& bodies.len() <= BODY_LIMIT
    &&& 0 <= dt <= TICK_LIMIT
    &&& forall|i: int| 0 <= i < bodies.len() ==> #[trigger] bodies[i].within_limits()
}

/// Whether a tick of `dt` accepts these bodies.
pub fn accepts_tick(bodies: &Vec<Body>, dt: i64) -> (r: bool)
    ensures
        r == tick_accepted(bodies@, dt as int),
{
    if bodies.len() > BODY_LIMIT || dt < 0 || dt > TICK_LIMIT {
        return false;
    }
    let mut i: usize = 0;
    while i < bodies.len()
        invariant
            i <= bodies@.len(),
            forall|k: int| 0 <= k < i ==> #[trigger] bodies@[k].within_limits(),
        decreases bodies@.len() - i,
    {
        let b = bodies[i];
        if b.x < -COORD_LIMIT || b.x > COORD_LIMIT || b.y < -COORD_LIMIT || b.y > COORD_LIMIT {
            assert(!bodies@[i as int].within_limits());
            return false;
        }
        if let Some(p) = b.physics {
            if p.velocity.x < -SPEED_LIMIT || p.velocity.x > SPEED_LIMIT || p.velocity.y
                < -SPEED_LIMIT || p.velocity.y > SPEED_LIMIT {
                assert(!bodies@[i as int].within_limits());
                return false;
            }
        }
        if let Some(r) = b.rect {
            if r.left < -EXTENT_LIMIT || r.left > r.right || r.right > EXTENT_LIMIT || r.bottom
                < -EXTENT_LIMIT || r.bottom > r.top || r.top > EXTENT_LIMIT {
                assert(!bodies@[i as int].within_limits());
                return false;
            }
        }
        i = i + 1;
    }
    true
}

/// Largest magnitude of a position after integration.
pub const MOVED_LIMIT: i64 = 1168231104512;

/// Largest push from one pair.
pub const PUSH_LIMIT: i64 = 4294967296;

pub open spec fn moved_within(b: Body) -> bool {
    &&& -MOVED_LIMIT <= b.x <= MOVED_LIMIT
    &&& -MOVED_LIMIT <= b.y <= MOVED_LIMIT
    &&& (b.physics matches Some(p) ==> -SPEED_LIMIT <= p.velocity.x <= SPEED_LIMIT
        && -SPEED_LIMIT <= p.velocity.y <= SPEED_LIMIT)
    &&& (b.rect matches Some(r) ==> r.wf())
}

proof fn lemma_product_bound(a: int, b: int, la: int, lb: int)
    requires
        -la <= a <= la,
        0 <= b <= lb,
    ensures
        -la * lb <= a * b <= la * lb,
{
    assert(-la * lb <= a * b <= la * lb) by (nonlinear_arith)
        requires
            -la <= a <= la,
            0 <= b <= lb,
    ;
}

/// A push is smaller than the extent of two rectangles.
proof fn lemma_correction_bound(a: Body, b: Body)
    requires
        moved_within(a),
        moved_within(b),
    ensures
        -PUSH_LIMIT <= a.correction(b).0 <= PUSH_LIMIT,
        -PUSH_LIMIT <= a.correction(b).1 <= PUSH_LIMIT,
{
}

/// Penetration never exceeds the extent of both rectangles.
proof fn lemma_penetration_bound(a: Body, b: Body)
    requires
        moved_within(a),
        moved_within(b),
        a.rect is Some,
        b.rect is Some,
    ensures
        a.penetration(b).0 <= PUSH_LIMIT,
        a.penetration(b).1 <= PUSH_LIMIT,
{
}

/// Penetration of two placed rectangles along x and y.
fn penetration(a: &Body, b: &Body) -> (r: (i64, i64))
    requires
        moved_within(*a),
        moved_within(*b),
        a.rect is Some,
        b.rect is Some,
    ensures
        r.0 == a.penetration(*b).0,
        r.1 == a.penetration(*b).1,
{
    let ra = match a.rect {
        Some(r) => r,
        None => BoundingRect { left: 0, right: 0, top: 0, bottom: 0 },
    };
    let rb = match b.rect {
        Some(r) => r,
        None => BoundingRect { left: 0, right: 0, top: 0, bottom: 0 },
    };
    let a_left = a.x + ra.left;
    let a_right = a.x + ra.right;
    let a_bottom = a.y + ra.bottom;
    let a_top = a.y + ra.top;
    let b_left = b.x + rb.left;
    let b_right = b.x + rb.right;
    let b_bottom = b.y + rb.bottom;
    let b_top = b.y + rb.top;
    let min_left_x = if a_left < b_left { a_left } else { b_left };
    let min_bottom_y = if a_bottom < b_bottom { a_bottom } else { b_bottom };
    let max_right_x = if a_right > b_right { a_right } else { b_right };
    let max_top_y = if a_top > b_top { a_top } else { b_top };
    let sum_width = (ra.right - ra.left) + (rb.right - rb.left);
    let sum_height = (ra.top - ra.bottom) + (rb.top - rb.bottom);
    (sum_width - (max_right_x - min_left_x), sum_height - (max_top_y - min_bottom_y))
}

/// Moves and separates bodies, one tick at a time.
pub struct PhysicsSystem;

impl PhysicsSystem {
    /// One tick of `dt`: every body with a velocity moves by velocity × dt;
    /// then each movable body is tested against every solid other than
    /// itself, at the moved positions, and each overlap is reported and
    /// gives a push along the shallow axis; the pushes of a body are summed
    /// and applied together once all pairs are tested. Depth becomes `-y`
    /// and velocities drop to zero. Returns the collisions, movable body by
    /// movable body, in body order.
    pub fn run(&mut self, bodies: &mut Vec<Body>, dt: i64) -> (r: Vec<Collision>)
        requires
            tick_accepted(old(bodies)@, dt as int),
        ensures
            final(bodies)@.len() == old(bodies)@.len(),
            forall|i: int|
                0 <= i < old(bodies)@.len() ==> #[trigger] final(bodies)@[i] == settled(
                    integrate_all(old(bodies)@, dt as int),
                    i,
                ),
            r@ == all_contacts(
                integrate_all(old(bodies)@, dt as int),
                old(bodies)@.len() as int,
            ),
    {
        let n = bodies.len();
        let ghost start = bodies@;
        let ghost s = integrate_all(start, dt as int);

        let mut i: usize = 0;
        while i < n
            invariant
                n == bodies@.len(),
                start.len() == n,
                s == integrate_all(start, dt as int),
                tick_accepted(start, dt as int),
                i <= n,
                forall|k: int| 0 <= k < i ==> #[trigger] bodies@[k] == s[k],
                forall|k: int| i <= k < n ==> #[trigger] bodies@[k] == start[k],
            decreases n - i,
        {
            let mut b = bodies[i];
            assert(start[i as int].within_limits());
            if let Some(p) = b.physics {
                proof {
                    lemma_product_bound(p.velocity.x as int, dt as int, SPEED_LIMIT as int, TICK_LIMIT as int);
                    lemma_product_bound(p.velocity.y as int, dt as int, SPEED_LIMIT as int, TICK_LIMIT as int);
                }
                b.x = b.x + p.velocity.x * dt;
                b.y = b.y + p.velocity.y * dt;
                b.depth = -b.y;
                bodies.set(i, b);
            }
            i = i + 1;
        }
        assert(bodies@ =~= s);
        assert forall|k: int| 0 <= k < n implies #[trigger] moved_within(s[k]) by {
            assert(start[k].within_limits());
            if let Some(p) = start[k].physics {
                lemma_product_bound(p.velocity.x as int, dt as int, SPEED_LIMIT as int, TICK_LIMIT as int);
                lemma_product_bound(p.velocity.y as int, dt as int, SPEED_LIMIT as int, TICK_LIMIT as int);
            }
        }

        let mut events: Vec<Collision> = Vec::new();
        let mut corrections: Vec<(i64, i64)> = Vec::new();
        let mut i: usize = 0;
        while i < n
            invariant
                n == bodies@.len(),
                n <= BODY_LIMIT,
                bodies@ == s,
                s.len() == n,
                forall|k: int| 0 <= k < n ==> #[trigger] moved_within(s[k]),
                i <= n,
                corrections@.len() == i,
                forall|k: int|
                    0 <= k < i ==> (#[trigger] corrections@[k]).0 == correction_sum(s, k, n as int).0
                        && corrections@[k].1 == correction_sum(s, k, n as int).1,
                events@ == all_contacts(s, i as int),
            decreases n - i,
        {
            let a = bodies[i];
            let mut cx: i64 = 0;
            let mut cy: i64 = 0;
            let ghost before = events@;
            let mut j: usize = 0;
            while j < n
                invariant
                    n == bodies@.len(),
                    n <= BODY_LIMIT,
                    bodies@ == s,
                    s.len() == n,
                    forall|k: int| 0 <= k < n ==> #[trigger] moved_within(s[k]),
                    i < n,
                    a == s[i as int],
                    j <= n,
                    cx == correction_sum(s, i as int, j as int).0,
                    cy == correction_sum(s, i as int, j as int).1,
                    events@ == before + contacts(s, i as int, j as int),
                decreases n - j,
            {
                let o = bodies[j];
                proof {
                    assert(moved_within(s[i as int]));
                    assert(moved_within(s[j as int]));
                    lemma_correction_sum_bound(s, i as int, j + 1);
                    assert(PUSH_LIMIT * (j + 1) <= PUSH_LIMIT * BODY_LIMIT) by (nonlinear_arith)
                        requires
                            j + 1 <= BODY_LIMIT,
                    ;
                }
                if j != i && a.physics.is_some() && a.rect.is_some() && o.solid && o.rect.is_some() {
                    let (ix, iy) = penetration(&a, &o);
                    proof {
                        lemma_penetration_bound(a, o);
                    }
                    if ix > 0 && iy > 0 {
                        events.push(Collision::Solid(a.id, o.id));
                        let (vx, vy) = match a.physics {
                            Some(p) => (p.velocity.x, p.velocity.y),
                            None => (0, 0),
                        };
                        assert(a.collides(o));
                        if ix > iy {
                            cy = cy + if vy > 0 { -iy } else { iy };
                        } else {
                            cx = cx + if vx > 0 { -ix } else { ix };
                        }
                    }
                }
                assert(cx == correction_sum(s, i as int, j + 1).0);
                assert(cy == correction_sum(s, i as int, j + 1).1);
                j = j + 1;
            }
            corrections.push((cx, cy));
            assert(events@ == all_contacts(s, i + 1));
            i = i + 1;
        }

        let mut i: usize = 0;
        while i < n
            invariant
                n == bodies@.len(),
                n <= BODY_LIMIT,
                s.len() == n,
                forall|k: int| 0 <= k < n ==> #[trigger] moved_within(s[k]),
                corrections@.len() == n,
                forall|k: int|
                    0 <= k < n ==> (#[trigger] corrections@[k]).0 == correction_sum(s, k, n as int).0
                        && corrections@[k].1 == correction_sum(s, k, n as int).1,
                i <= n,
                forall|k: int| 0 <= k < i ==> #[trigger] bodies@[k] == settled(s, k),
                forall|k: int| i <= k < n ==> #[trigger] bodies@[k] == s[k],
            decreases n - i,
        {
            let mut b = bodies[i];
            if b.physics.is_some() {
                let (cx, cy) = corrections[i];
                proof {
                    assert(moved_within(s[i as int]));
                    lemma_correction_sum_bound(s, i as int, n as int);
                    assert(PUSH_LIMIT * n <= PUSH_LIMIT * BODY_LIMIT) by (nonlinear_arith)
                        requires
                            n <= BODY_LIMIT,
                    ;
                }
                b.x = b.x + cx;
                b.y = b.y + cy;
                b.depth = -b.y;
                b.physics = Some(Physics { velocity: Velocity { x: 0, y: 0 } });
                bodies.set(i, b);
            }
            i = i + 1;
        }
        events
    }
}

/// The pushes on one body add up to at most `n` single pushes.
proof fn lemma_correction_sum_bound(s: Seq<Body>, i: int, n: int)
    requires
        0 <= i < s.len(),
        0 <= n <= s.len(),
        forall|k: int| 0 <= k < s.len() ==> #[trigger] moved_within(s[k]),
    ensures
        -PUSH_LIMIT * n <= correction_sum(s, i, n).0 <= PUSH_LIMIT * n,
        -PUSH_LIMIT * n <= correction_sum(s, i, n).1 <= PUSH_LIMIT * n,
    decreases n,
{
    if n > 0 {
        lemma_correction_sum_bound(s, i, n - 1);
        lemma_correction_bound(s[i], s[n - 1]);
    }
}

/// A movable body whose moved rectangle overlaps no solid is reported in
/// no collision as the moving side, gets no push, and ends the tick
/// exactly velocity × dt from where it started.
pub proof fn lemma_free_motion(bodies: Seq<Body>, dt: int, i: int)
    requires
        tick_accepted(bodies, dt),
        0 <= i < bodies.len(),
        bodies[i].physics is Some,
        forall|j: int|
            0 <= j < bodies.len() && j != i ==> !#[trigger] integrate_all(bodies, dt)[i].collides(
                integrate_all(bodies, dt)[j],
            ),
    ensures
        contacts(integrate_all(bodies, dt), i, bodies.len() as int) == Seq::<Collision>::empty(),
        settled(integrate_all(bodies, dt), i).x == bodies[i].x + bodies[i].velocity().0 * dt,
        settled(integrate_all(bodies, dt), i).y == bodies[i].y + bodies[i].velocity().1 * dt,
        settled(integrate_all(bodies, dt), i).depth == -(bodies[i].y + bodies[i].velocity().1 * dt),
{
    let s = integrate_all(bodies, dt);
    let b = bodies[i];
    assert(b.within_limits());
    let p = b.physics->Some_0;
    lemma_product_bound(p.velocity.x as int, dt, SPEED_LIMIT as int, TICK_LIMIT as int);
    lemma_product_bound(p.velocity.y as int, dt, SPEED_LIMIT as int, TICK_LIMIT as int);
    lemma_no_contact(s, i, bodies.len() as int);
}

proof fn lemma_no_contact(s: Seq<Body>, i: int, n: int)
    requires
        0 <= i < s.len(),
        n <= s.len(),
        forall|j: int| 0 <= j < s.len() && j != i ==> !#[trigger] s[i].collides(s[j]),
    ensures
        contacts(s, i, n) == Seq::<Collision>::empty(),
        correction_sum(s, i, n) == (0int, 0int),
    decreases n,
{
    if n > 0 {
        lemma_no_contact(s, i, n - 1);
        if n - 1 != i {
            assert(!s[i].collides(s[n - 1]));
        }
    }
}

} // verus!
