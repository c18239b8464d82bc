use dungeon_core::{
    sword_attack, BoundingRect, CharacterAnimation, CharacterAnimationSystem, CharacterDirection,
    CharacterMeta, CharacterMove, CharacterMoveSystem, DelayedRemove, DestRoom, Destroyer,
    EventChannel, PerformRoomExit, Physics, ProximityEvent, RoomExitSystem, SpriteAnimation,
    Velocity,
};

fn animation() -> CharacterAnimation {
    CharacterAnimation {
        prev_character_meta: CharacterMeta::new(CharacterDirection::Down),
        walk_up_animation: vec![1, 2, 3],
        walk_down_animation: vec![4, 5, 6],
        walk_left_animation: vec![7, 8, 9],
        walk_right_animation: vec![10, 11, 12],
    }
}

#[test]
fn direction_names() {
    assert_eq!(CharacterDirection::Left.as_str(), "left");
    assert_eq!(CharacterDirection::Right.as_str(), "right");
    assert_eq!(CharacterDirection::Up.as_str(), "up");
    assert_eq!(CharacterDirection::Down.as_str(), "down");
}

#[test]
fn new_meta_stands_still() {
    let m = CharacterMeta::new(CharacterDirection::Left);
    assert_eq!(m.direction, CharacterDirection::Left);
    assert!(!m.moving);
}

#[test]
fn horizontal_intent_wins_over_vertical() {
    let mut system = CharacterMoveSystem::default();
    let mut meta = CharacterMeta::new(CharacterDirection::Down);
    let mut physics = Physics::new();
    let mv = CharacterMove::new(128);
    system.run(&mut meta, &mut physics, &mv, -1, 1, false);
    assert_eq!(meta, CharacterMeta { direction: CharacterDirection::Left, moving: true });
    assert_eq!(physics.velocity, Velocity { x: -128, y: 128 });
    system.run(&mut meta, &mut physics, &mv, 0, -1, false);
    assert_eq!(meta, CharacterMeta { direction: CharacterDirection::Down, moving: true });
    assert_eq!(physics.velocity, Velocity { x: 0, y: -128 });
    system.run(&mut meta, &mut physics, &mv, 0, 0, false);
    assert_eq!(meta, CharacterMeta { direction: CharacterDirection::Down, moving: false });
    assert_eq!(physics.velocity, Velocity { x: 0, y: 0 });
}

#[test]
fn attack_fires_once_per_press() {
    let mut system = CharacterMoveSystem::default();
    let mut meta = CharacterMeta::new(CharacterDirection::Down);
    let mut physics = Physics::new();
    let mv = CharacterMove::new(128);
    assert_eq!(
        system.run(&mut meta, &mut physics, &mv, 0, 1, true),
        Some(CharacterDirection::Up)
    );
    assert_eq!(system.run(&mut meta, &mut physics, &mv, 0, 1, true), None);
    assert_eq!(system.run(&mut meta, &mut physics, &mv, 0, 0, false), None);
    assert_eq!(
        system.run(&mut meta, &mut physics, &mv, 0, 0, true),
        Some(CharacterDirection::Up)
    );
}

#[test]
fn facing_change_restarts_animation_once() {
    let mut moves = CharacterMoveSystem::default();
    let mut anims = CharacterAnimationSystem;
    let mut meta = CharacterMeta::new(CharacterDirection::Down);
    let mut physics = Physics::new();
    let mv = CharacterMove::new(128);
    let mut ca = animation();
    let mut sprite = SpriteAnimation::new(vec![1, 2, 3], 100);
    sprite.pause = true;

    moves.run(&mut meta, &mut physics, &mv, 1, 0, false);
    assert_eq!(meta, CharacterMeta { direction: CharacterDirection::Right, moving: true });
    anims.run(&mut ca, &meta, &mut sprite);
    assert_eq!(sprite.index, 0);
    assert_eq!(sprite.keys, vec![10, 11, 12]);
    assert!(!sprite.pause);
    assert_eq!(sprite.advance(150), Some(11));
    assert_eq!(sprite.index, 1);

    moves.run(&mut meta, &mut physics, &mv, 1, 0, false);
    anims.run(&mut ca, &meta, &mut sprite);
    assert_eq!(sprite.index, 1);
    assert_eq!(sprite.advance(60), Some(12));
    assert_eq!(sprite.index, 2);

    moves.run(&mut meta, &mut physics, &mv, 0, 0, false);
    anims.run(&mut ca, &meta, &mut sprite);
    assert_eq!(sprite.index, 0);
    assert!(sprite.pause);
    assert_eq!(sprite.advance(1000), None);
}

#[test]
fn sprite_animation_wraps_round() {
    let mut sprite = SpriteAnimation::new(vec![5, 6], 100);
    assert_eq!(sprite.advance(100), None);
    assert_eq!(sprite.time, 100);
    assert_eq!(sprite.advance(250), Some(6));
    assert_eq!(sprite.index, 1);
    assert_eq!(sprite.time, 50);
}

#[test]
fn sword_strike_lands_one_tile_ahead() {
    let s = sword_attack(100, 1000, 2000, CharacterDirection::Left);
    assert_eq!((s.x, s.y, s.depth), (1000 - 32000, 2000, -2000));
    assert_eq!(s.destroyer, Destroyer { damage: 100 });
    assert_eq!(s.remove, DelayedRemove { current: 0, end: 200 });
    assert_eq!(s.rect, BoundingRect::new(-16000, 16000, -16000, 16000));
    let up = sword_attack(1, 0, 0, CharacterDirection::Up);
    assert_eq!((up.x, up.y, up.depth), (0, 32000, -32000));
}

#[test]
fn exit_touch_requests_room_change() {
    let mut channel: EventChannel<ProximityEvent> = EventChannel::new();
    let mut system = RoomExitSystem::new(&channel);
    let exit = DestRoom::Relative(1, 0, 1, 7);
    let exits = vec![None, None, Some(exit)];
    let mut request: Option<PerformRoomExit> = None;
    channel.single_write(ProximityEvent { collider1: 0, collider2: 1 });
    system.run(&channel, &exits, &mut request);
    assert_eq!(request, None);
    channel.single_write(ProximityEvent { collider1: 2, collider2: 0 });
    system.run(&channel, &exits, &mut request);
    assert_eq!(request, Some(PerformRoomExit(exit, (1, 7))));
    let (room, spawn) = request.unwrap().destination((4, -1));
    assert_eq!(room, (5, -1));
    assert_eq!(spawn, (1, 7));
}

#[test]
fn default_sprite_animation_is_empty() {
    let sprite = SpriteAnimation::default();
    assert_eq!(sprite.index, 0);
    assert!(sprite.keys.is_empty());
    assert_eq!(sprite.speed, 0);
    assert_eq!(sprite.time, 0);
    assert!(!sprite.pause);
}
