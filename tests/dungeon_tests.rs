use dungeon_core::{Direction, DungeonGen, DungeonMap, RoomField, RoomGeneration};
use rand::rngs::StdRng;
use rand::SeedableRng;

const SIDES: [Direction; 4] = [Direction::North, Direction::South, Direction::East, Direction::West];

fn has_exit(g: &RoomGeneration, d: Direction) -> bool {
    match d {
        Direction::North => g.exit_north,
        Direction::South => g.exit_south,
        Direction::East => g.exit_east,
        Direction::West => g.exit_west,
    }
}

#[test]
fn map_keeps_one_room_per_coordinate() {
    let mut map: DungeonMap<u32> = DungeonMap::new();
    assert_eq!(map.len(), 0);
    map.add_room((1, 0), 10);
    map.add_room((-1, 5), 20);
    map.add_room((1, -3), 30);
    map.add_room((1, 0), 40);
    assert_eq!(map.len(), 3);
    assert_eq!(map.get_room((1, 0)), Some(&40));
    assert_eq!(map.get_room((-1, 5)), Some(&20));
    assert!(map.has_room((1, -3)));
    assert!(!map.has_room((0, 0)));
    assert_eq!(map.get_room((0, 0)), None);
    assert_eq!(map.coordinates(), vec![(-1, 5), (1, -3), (1, 0)]);
}

#[test]
fn room_can_be_changed_in_place() {
    let mut map: DungeonMap<u32> = DungeonMap::new();
    map.add_room((2, 2), 5);
    map.add_room((0, 1), 6);
    if let Some(v) = map.get_room_mut((2, 2)) {
        *v = 50;
    }
    assert_eq!(map.get_room((2, 2)), Some(&50));
    assert_eq!(map.get_room((0, 1)), Some(&6));
    assert!(map.get_room_mut((9, 9)).is_none());
    assert_eq!(map.len(), 2);
}

#[test]
fn room_is_made_only_when_missing() {
    let mut map: DungeonMap<u32> = DungeonMap::new();
    map.add_room((1, 1), 3);
    *map.get_room_or_insert((1, 1), || 99) += 1;
    assert_eq!(map.get_room((1, 1)), Some(&4));
    *map.get_room_or_insert((0, 7), || 10) += 5;
    assert_eq!(map.get_room((0, 7)), Some(&15));
    assert_eq!(map.coordinates(), vec![(0, 7), (1, 1)]);
}

#[test]
fn open_corridor_links_both_rooms() {
    let mut map: DungeonMap<RoomGeneration> = DungeonMap::new();
    map.add_room((0, 0), RoomGeneration { width: 8, height: 8, ..Default::default() });
    let to = map.open_corridor((0, 0), Direction::North, 8, 8);
    assert_eq!(to, (0, -1));
    assert!(map.get_room((0, 0)).unwrap().exit_north);
    let fresh = map.get_room((0, -1)).unwrap();
    assert!(fresh.exit_south && !fresh.exit_north && !fresh.exit_east && !fresh.exit_west);
    assert_eq!((fresh.width, fresh.height), (8, 8));
}

#[test]
fn dungeon_exits_are_reciprocal() {
    for seed in 0..30u64 {
        let gen = DungeonGen { corridor_length: 12, splits: 4 };
        let mut rng = StdRng::seed_from_u64(seed);
        let map = gen.generate(&mut rng, 20, 15);
        assert!(map.has_room((0, 0)));
        assert!(map.len() <= 13);
        assert!(map.len() >= 2);
        for c in map.coordinates() {
            let g = map.get_room(c).unwrap();
            assert_eq!((g.width, g.height), (20, 15));
            for d in SIDES.iter() {
                if has_exit(g, *d) {
                    let n = d.add(c);
                    let other = map.get_room(n).expect("exit leads to a room");
                    assert!(has_exit(other, d.reverse()));
                }
            }
        }
    }
}

#[test]
fn generated_rooms_carry_matching_exit_cells() {
    let gen = DungeonGen { corridor_length: 5, splits: 4 };
    let mut rng = StdRng::seed_from_u64(9);
    let layout = gen.generate(&mut rng, 20, 15);
    let rooms = layout.generate_map(&mut rng).unwrap();
    assert_eq!(rooms.coordinates(), layout.coordinates());
    for c in rooms.coordinates() {
        let g = layout.get_room(c).unwrap();
        let room = rooms.get_room(c).unwrap();
        let cells = [(10, 14), (10, 0), (19, 7), (0, 7)];
        for (d, cell) in SIDES.iter().zip(cells.iter()) {
            let f = room.get_field(cell.0, cell.1).unwrap();
            assert_eq!(matches!(f, RoomField::Exit(_)), has_exit(g, *d));
        }
    }
}

#[test]
fn same_seed_gives_same_dungeon() {
    let gen = DungeonGen { corridor_length: 5, splits: 4 };
    let run = |seed: u64| {
        let mut rng = StdRng::seed_from_u64(seed);
        let layout = gen.generate(&mut rng, 20, 15);
        let rooms = layout.generate_map(&mut rng).unwrap();
        let mut out = Vec::new();
        for c in rooms.coordinates() {
            out.push((c, *layout.get_room(c).unwrap(), rooms.get_room(c).unwrap().fields.clone()));
        }
        out
    };
    assert_eq!(run(1234), run(1234));
    assert_eq!(run(7), run(7));
}

#[test]
fn zero_corridor_gives_single_room() {
    let gen = DungeonGen::default();
    let mut rng = StdRng::seed_from_u64(0);
    let map = gen.generate(&mut rng, 20, 15);
    assert_eq!(map.coordinates(), vec![(0, 0)]);
    let g = map.get_room((0, 0)).unwrap();
    assert!(!g.exit_north && !g.exit_south && !g.exit_east && !g.exit_west);
}

#[test]
fn map_generation_fails_on_small_rooms() {
    let gen = DungeonGen { corridor_length: 3, splits: 0 };
    let mut rng = StdRng::seed_from_u64(5);
    let layout = gen.generate(&mut rng, 4, 15);
    assert!(layout.generate_map(&mut rng).is_err());
}
