use dungeon_core::{
    DestRoom, Direction, GenerationError, Room, RoomDraws, RoomField, RoomGeneration,
};
use rand::rngs::StdRng;
use rand::SeedableRng;

fn generation(width: usize, height: usize, n: bool, s: bool, e: bool, w: bool) -> RoomGeneration {
    RoomGeneration {
        width,
        height,
        exit_north: n,
        exit_south: s,
        exit_east: e,
        exit_west: w,
    }
}

fn is_border(room: &Room, x: usize, y: usize) -> bool {
    x == 0 || y == 0 || x == room.width - 1 || y == room.height - 1
}

#[test]
fn new_room_is_empty() {
    let room = Room::new(4, 3);
    assert_eq!(room.fields.len(), 12);
    for y in 0..3 {
        for x in 0..4 {
            assert_eq!(room.get_field(x, y), Some(RoomField::Nothing));
        }
    }
}

#[test]
fn set_and_get_field() {
    let mut room = Room::new(5, 4);
    room.set_field(3, 2, RoomField::Stone);
    assert_eq!(room.get_field(3, 2), Some(RoomField::Stone));
    assert_eq!(room.fields[3 + 2 * 5], RoomField::Stone);
    assert_eq!(room.get_field(2, 3), Some(RoomField::Nothing));
    room.set_field(5, 0, RoomField::Bush);
    room.set_field(0, 4, RoomField::Bush);
    assert_eq!(room.get_field(5, 0), None);
    assert_eq!(room.get_field(0, 4), None);
    assert!(room.fields.iter().all(|f| *f != RoomField::Bush));
}

#[test]
fn iterator_visits_every_cell_in_row_order() {
    let mut room = Room::new(3, 2);
    room.set_field(2, 1, RoomField::Wall);
    let mut it = room.room_field_iterator();
    let mut seen = Vec::new();
    while let Some(cell) = it.next() {
        seen.push(cell);
    }
    assert_eq!(seen.len(), 6);
    assert_eq!(seen[0], (0, 0, RoomField::Nothing));
    assert_eq!(seen[1], (1, 0, RoomField::Nothing));
    assert_eq!(seen[3], (0, 1, RoomField::Nothing));
    assert_eq!(seen[5], (2, 1, RoomField::Wall));
    assert_eq!(it.next(), None);
}

#[test]
fn iterator_of_empty_room_ends_at_once() {
    let room = Room::new(0, 5);
    let mut it = room.room_field_iterator();
    assert_eq!(it.next(), None);
}

#[test]
fn relative_destination_resolves_from_current_room() {
    let d = DestRoom::Relative(1, -1, 4, 5);
    assert_eq!(d.to_absolute_coordinates((3, 7)), (4, 6));
    assert_eq!(d.spawn_point(), (4, 5));
    let a = DestRoom::Absolute(-2, 9, 1, 2);
    assert_eq!(a.to_absolute_coordinates((3, 7)), (-2, 9));
    assert_eq!(a.spawn_point(), (1, 2));
}

#[test]
fn exit_round_trip_returns_to_start() {
    let g = generation(20, 15, true, true, true, true);
    let mut rng = StdRng::seed_from_u64(3);
    let room = g.generate_room(&mut rng).unwrap();
    let pairs = [((10, 14), (10, 0)), ((10, 0), (10, 14)), ((19, 7), (0, 7)), ((0, 7), (19, 7))];
    let start = (3, -2);
    for (there, back) in pairs.iter() {
        let out = match room.get_field(there.0, there.1) {
            Some(RoomField::Exit(d)) => d,
            other => panic!("no exit: {:?}", other),
        };
        let next = out.to_absolute_coordinates(start);
        assert_eq!((next.0 - start.0).abs() + (next.1 - start.1).abs(), 1);
        let home = match room.get_field(back.0, back.1) {
            Some(RoomField::Exit(d)) => d,
            other => panic!("no exit: {:?}", other),
        };
        assert_eq!(home.to_absolute_coordinates(next), start);
    }
}

#[test]
fn generated_border_has_exits_only_where_open() {
    let flags = [
        (false, false, false, false),
        (true, false, false, false),
        (false, true, true, false),
        (true, true, true, true),
        (false, false, false, true),
    ];
    for (seed, f) in flags.iter().enumerate() {
        let g = generation(20, 15, f.0, f.1, f.2, f.3);
        let mut rng = StdRng::seed_from_u64(seed as u64);
        let room = g.generate_room(&mut rng).unwrap();
        assert_eq!(room.width, 20);
        assert_eq!(room.height, 15);
        let exits = [
            (f.0, (10, 14), DestRoom::Relative(0, -1, 10, 1)),
            (f.1, (10, 0), DestRoom::Relative(0, 1, 10, 13)),
            (f.2, (19, 7), DestRoom::Relative(1, 0, 1, 7)),
            (f.3, (0, 7), DestRoom::Relative(-1, 0, 18, 7)),
        ];
        for y in 0..15 {
            for x in 0..20 {
                if !is_border(&room, x, y) {
                    continue;
                }
                let expected = exits
                    .iter()
                    .find(|e| e.0 && e.1 == (x, y))
                    .map(|e| RoomField::Exit(e.2))
                    .unwrap_or(RoomField::Wall);
                assert_eq!(room.get_field(x, y), Some(expected), "cell {:?}", (x, y));
            }
        }
    }
}

#[test]
fn generated_interior_holds_one_player_and_obstacles() {
    for seed in 0..20u64 {
        let g = generation(20, 15, true, false, false, true);
        let mut rng = StdRng::seed_from_u64(seed);
        let room = g.generate_room(&mut rng).unwrap();
        let mut players = 0;
        let mut stones = 0;
        let mut bushes = 0;
        for y in 1..14 {
            for x in 1..19 {
                let f = room.get_field(x, y).unwrap();
                let inside = (2..17).contains(&x) && (2..12).contains(&y);
                match f {
                    RoomField::Player => {
                        assert!(inside);
                        players += 1;
                    }
                    RoomField::Stone => {
                        assert!(inside);
                        stones += 1;
                    }
                    RoomField::Bush => {
                        assert!(inside);
                        bushes += 1;
                    }
                    RoomField::Nothing => {}
                    other => panic!("unexpected {:?}", other),
                }
            }
        }
        assert_eq!(players, 1);
        assert!(stones <= 7);
        assert!(bushes <= 7);
        assert!(stones + bushes >= 1);
    }
}

#[test]
fn build_room_lays_out_draws_in_order() {
    let g = generation(8, 7, false, false, true, false);
    let draws = RoomDraws {
        stones: vec![(2, 2), (3, 3), (4, 2)],
        bushes: vec![(3, 3), (2, 3)],
        player: (4, 2),
    };
    let room = g.build_room(&draws);
    assert_eq!(room.get_field(2, 2), Some(RoomField::Stone));
    assert_eq!(room.get_field(3, 3), Some(RoomField::Bush));
    assert_eq!(room.get_field(2, 3), Some(RoomField::Bush));
    assert_eq!(room.get_field(4, 2), Some(RoomField::Player));
    assert_eq!(room.get_field(3, 2), Some(RoomField::Nothing));
    assert_eq!(room.get_field(7, 3), Some(RoomField::Exit(DestRoom::Relative(1, 0, 1, 3))));
    assert_eq!(room.get_field(0, 3), Some(RoomField::Wall));
    assert_eq!(room.get_field(7, 6), Some(RoomField::Wall));
}

#[test]
fn too_small_room_is_refused() {
    let mut rng = StdRng::seed_from_u64(1);
    assert_eq!(
        generation(5, 10, false, false, false, false).generate_room(&mut rng).unwrap_err(),
        GenerationError::RoomTooSmall
    );
    assert_eq!(
        generation(10, 0, true, false, false, false).generate_room(&mut rng).unwrap_err(),
        GenerationError::RoomTooSmall
    );
    assert!(generation(6, 6, true, true, true, true).generate_room(&mut rng).is_ok());
}

#[test]
fn too_large_room_is_refused() {
    let mut rng = StdRng::seed_from_u64(1);
    let wide = (i32::MAX as usize) + 1;
    assert_eq!(
        generation(wide, 10, false, false, false, false).generate_room(&mut rng).unwrap_err(),
        GenerationError::RoomTooLarge
    );
    assert_eq!(
        generation(usize::MAX / 2, usize::MAX / 2, false, false, false, false)
            .generate_room(&mut rng)
            .unwrap_err(),
        GenerationError::RoomTooLarge
    );
}

#[test]
fn draws_stay_in_interior() {
    let g = generation(9, 8, false, false, false, false);
    let mut rng = StdRng::seed_from_u64(11);
    for _ in 0..50 {
        let d = g.draw_layout(&mut rng);
        assert!((5..8).contains(&d.stones.len()));
        assert!((5..8).contains(&d.bushes.len()));
        for p in d.stones.iter().chain(d.bushes.iter()).chain(std::iter::once(&d.player)) {
            assert!((2..6).contains(&p.0));
            assert!((2..5).contains(&p.1));
        }
    }
}

#[test]
fn direction_steps_and_reverses() {
    assert_eq!(Direction::North.add((0, 0)), (0, -1));
    assert_eq!(Direction::South.add((2, 3)), (2, 4));
    assert_eq!(Direction::East.add((2, 3)), (3, 3));
    assert_eq!(Direction::West.add((2, 3)), (1, 3));
    assert_eq!(Direction::North.reverse(), Direction::South);
    assert_eq!(Direction::East.reverse(), Direction::West);
    assert_eq!(Direction::from_index(2), Direction::East);
    let mut g = generation(6, 6, false, false, false, false);
    Direction::West.set_exit(&mut g);
    assert!(g.exit_west && !g.exit_north && !g.exit_south && !g.exit_east);
}
