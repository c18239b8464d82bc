use dungeon_core::{
    DelayedRemove, DelayedRemoveSystem, DestroySystem, Destroyable, Destroyer, EventChannel,
    ProximityEvent,
};

#[test]
fn two_hits_take_health_below_zero() {
    let mut healths = vec![Some(Destroyable { health: 200 }), None];
    let destroyers = vec![None, Some(Destroyer { damage: 150 })];
    let hit = ProximityEvent { collider1: 0, collider2: 1 };
    let removed = DestroySystem::apply(&mut healths, &destroyers, &vec![hit]);
    assert!(removed.is_empty());
    assert_eq!(healths[0], Some(Destroyable { health: 50 }));
    let removed = DestroySystem::apply(&mut healths, &destroyers, &vec![hit]);
    assert_eq!(healths[0], Some(Destroyable { health: -100 }));
    assert_eq!(removed, vec![0]);
}

#[test]
fn hits_count_in_both_orders() {
    let mut healths = vec![None, Some(Destroyable { health: 10 })];
    let destroyers = vec![Some(Destroyer { damage: 4 }), None];
    let events = vec![
        ProximityEvent { collider1: 0, collider2: 1 },
        ProximityEvent { collider1: 1, collider2: 0 },
        ProximityEvent { collider1: 1, collider2: 7 },
    ];
    let removed = DestroySystem::apply(&mut healths, &destroyers, &events);
    assert_eq!(healths[1], Some(Destroyable { health: 2 }));
    assert!(removed.is_empty());
}

#[test]
fn health_exactly_zero_is_kept() {
    let mut healths = vec![Some(Destroyable { health: 100 }), None];
    let destroyers = vec![None, Some(Destroyer { damage: 100 })];
    let removed = DestroySystem::apply(
        &mut healths,
        &destroyers,
        &vec![ProximityEvent { collider1: 0, collider2: 1 }],
    );
    assert_eq!(healths[0], Some(Destroyable { health: 0 }));
    assert!(removed.is_empty());
}

#[test]
fn destroy_system_reads_each_event_once() {
    let mut channel: EventChannel<ProximityEvent> = EventChannel::new();
    let mut system = DestroySystem::default();
    let mut healths = vec![Some(Destroyable { health: 200 }), None];
    let destroyers = vec![None, Some(Destroyer { damage: 150 })];
    channel.single_write(ProximityEvent { collider1: 0, collider2: 1 });
    // The first run registers and sees only later events.
    assert!(system.run(&channel, &mut healths, &destroyers).is_empty());
    assert_eq!(healths[0], Some(Destroyable { health: 200 }));
    channel.single_write(ProximityEvent { collider1: 1, collider2: 0 });
    assert!(system.run(&channel, &mut healths, &destroyers).is_empty());
    channel.single_write(ProximityEvent { collider1: 0, collider2: 1 });
    let removed = system.run(&channel, &mut healths, &destroyers);
    assert_eq!(healths[0], Some(Destroyable { health: -100 }));
    assert_eq!(removed, vec![0]);
    assert!(system.run(&channel, &mut healths, &destroyers).is_empty());
}

#[test]
fn readers_keep_their_own_cursor() {
    let mut channel: EventChannel<u32> = EventChannel::new();
    channel.single_write(1);
    let mut a = channel.register_reader();
    channel.single_write(2);
    let mut b = channel.register_reader();
    channel.single_write(3);
    assert_eq!(channel.read(&mut a), vec![2, 3]);
    assert_eq!(channel.read(&mut b), vec![3]);
    assert_eq!(channel.read(&mut a), Vec::<u32>::new());
    assert_eq!(channel.len(), 3);
}

#[test]
fn delayed_remove_fires_after_end_is_exceeded() {
    let mut d = DelayedRemove::new(200);
    assert_eq!(d.current, 0);
    assert!(!d.tick(100));
    assert!(!d.tick(100));
    assert_eq!(d.current, 200);
    assert!(d.tick(100));
}

#[test]
fn delayed_remove_system_lists_expired_entities() {
    let mut timers = vec![(4, DelayedRemove::new(200)), (9, DelayedRemove::new(50))];
    let mut system = DelayedRemoveSystem;
    assert_eq!(system.run(&mut timers, 100), vec![9]);
    assert_eq!(system.run(&mut timers, 100), vec![9]);
    assert_eq!(timers[0].1.current, 200);
    assert_eq!(system.run(&mut timers, 100), vec![4, 9]);
}
