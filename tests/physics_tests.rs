use dungeon_core::{
    accepts_tick, Body, BoundingRect, Collision, Physics, PhysicsSystem, Velocity,
};

fn square(half: i64) -> BoundingRect {
    BoundingRect::new(-half, half, -half, half)
}

fn movable(id: u32, x: i64, y: i64, vx: i64, vy: i64, half: i64) -> Body {
    Body {
        id,
        x,
        y,
        depth: -y,
        physics: Some(Physics { velocity: Velocity { x: vx, y: vy } }),
        rect: Some(square(half)),
        solid: false,
    }
}

fn wall(id: u32, x: i64, y: i64, half: i64) -> Body {
    Body { id, x, y, depth: -y, physics: None, rect: Some(square(half)), solid: true }
}

#[test]
fn rect_width_and_height() {
    let r = BoundingRect::new(-3, 5, -2, 7);
    assert_eq!(r.width(), 8);
    assert_eq!(r.height(), 9);
    assert_eq!(r.left, -3);
    assert_eq!(r.bottom, -2);
    assert_eq!(r.top, 7);
}

#[test]
fn physics_starts_at_rest() {
    assert_eq!(Physics::new().velocity, Velocity { x: 0, y: 0 });
}

#[test]
fn free_body_moves_by_velocity_times_dt() {
    let mut bodies = vec![movable(1, 0, 0, 2, -3, 500), wall(2, 100_000, 0, 16_000)];
    let events = PhysicsSystem.run(&mut bodies, 16);
    assert!(events.is_empty());
    assert_eq!((bodies[0].x, bodies[0].y), (32, -48));
    assert_eq!(bodies[0].depth, 48);
    assert_eq!(bodies[0].physics.unwrap().velocity, Velocity { x: 0, y: 0 });
    assert_eq!(bodies[1], wall(2, 100_000, 0, 16_000));
}

#[test]
fn overlap_is_pushed_out_along_shallow_axis() {
    // Two squares of width 2 (in thousandths), centres 0.5 apart on x:
    // the spanning width is 2.5 against 4 in sum, so the push is 1.5.
    let mut bodies = vec![movable(1, 0, 0, 0, 0, 1000), wall(2, 500, 0, 1000)];
    let events = PhysicsSystem.run(&mut bodies, 10);
    assert_eq!(events, vec![Collision::Solid(1, 2)]);
    assert_eq!((bodies[0].x - 0).abs(), 1500);
    assert_eq!(bodies[0].y, 0);
    // Centres 1.5 apart: the span is 3.5, so the push is 0.5.
    let mut bodies = vec![movable(1, 0, 0, 0, 0, 1000), wall(2, 1500, 0, 1000)];
    let events = PhysicsSystem.run(&mut bodies, 10);
    assert_eq!(events, vec![Collision::Solid(1, 2)]);
    assert_eq!((bodies[0].x - 0).abs(), 500);
}

#[test]
fn push_opposes_direction_of_travel() {
    let mut bodies = vec![movable(1, 0, 0, 100, 0, 1000), wall(2, 2500, 0, 1000)];
    let events = PhysicsSystem.run(&mut bodies, 10);
    assert_eq!(events, vec![Collision::Solid(1, 2)]);
    // moved to 1000, overlaps by 500 along x, pushed back
    assert_eq!(bodies[0].x, 500);
    assert_eq!(bodies[0].depth, 0);
}

#[test]
fn shallow_y_axis_is_corrected() {
    let mut bodies = vec![movable(1, 0, 0, 0, 10, 1000), wall(2, 0, 1800, 1000)];
    let events = PhysicsSystem.run(&mut bodies, 10);
    assert_eq!(events, vec![Collision::Solid(1, 2)]);
    // moved to y = 100: overlaps by 300 along y, fully along x
    assert_eq!(bodies[0].y, 100 - 300);
    assert_eq!(bodies[0].depth, 200);
    assert_eq!(bodies[0].x, 0);
}

#[test]
fn equal_penetration_corrects_x() {
    let mut bodies = vec![movable(1, 0, 0, 0, 0, 1000), wall(2, 1500, 1500, 1000)];
    let events = PhysicsSystem.run(&mut bodies, 1);
    assert_eq!(events.len(), 1);
    assert_eq!(bodies[0].x, 500);
    assert_eq!(bodies[0].y, 0);
}

#[test]
fn pushes_from_several_solids_add_up() {
    let mut bodies = vec![
        movable(1, 0, 0, 0, 0, 1000),
        wall(2, 1500, 0, 1000),
        wall(3, -1800, 0, 1000),
    ];
    let events = PhysicsSystem.run(&mut bodies, 1);
    assert_eq!(events, vec![Collision::Solid(1, 2), Collision::Solid(1, 3)]);
    assert_eq!(bodies[0].x, 500 + 200);
}

#[test]
fn a_body_never_collides_with_itself() {
    let mut me = movable(1, 0, 0, 0, 0, 1000);
    me.solid = true;
    let mut bodies = vec![me];
    let events = PhysicsSystem.run(&mut bodies, 5);
    assert!(events.is_empty());
    assert_eq!(bodies[0].x, 0);
}

#[test]
fn touching_edges_do_not_collide() {
    let mut bodies = vec![movable(1, 0, 0, 0, 0, 1000), wall(2, 2000, 0, 1000)];
    let events = PhysicsSystem.run(&mut bodies, 1);
    assert!(events.is_empty());
    assert_eq!(bodies[0].x, 0);
}

#[test]
fn tick_limits_are_checked() {
    let bodies = vec![movable(1, 0, 0, 1, 1, 10), wall(2, 5, 5, 10)];
    assert!(accepts_tick(&bodies, 16));
    assert!(!accepts_tick(&bodies, -1));
    let far = vec![wall(3, i64::MAX, 0, 10)];
    assert!(!accepts_tick(&far, 16));
    let fast = vec![movable(1, 0, 0, i64::MAX, 0, 10)];
    assert!(!accepts_tick(&fast, 16));
    let inverted = vec![Body { rect: Some(BoundingRect::new(5, -5, 0, 1)), ..wall(4, 0, 0, 1) }];
    assert!(!accepts_tick(&inverted, 16));
}
