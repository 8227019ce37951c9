use maze_chase::game::enemy::{GhostPersonality, GhostSpawn};
use maze_chase::game::map::{
    contains_byte, map_origin, ConsumableType, Food, MapEnforcer, MapError, SpawnPoint, TileCollider, TileMap,
    WallType, CELL_SIZE, FIRST_ROW,
};
use maze_chase::game::Position;

#[test]
fn small_map_is_read_cell_by_cell() {
    let text = "#G#\n#S.\nB@|";
    let map = TileMap::create_map(text.as_bytes()).unwrap();
    assert_eq!(
        map.tiles,
        vec![
            TileCollider { position: Position::new(0, 250_000), kind: WallType::Blocking },
            TileCollider { position: Position::new(25_000, 250_000), kind: WallType::Gate },
            TileCollider { position: Position::new(50_000, 250_000), kind: WallType::Blocking },
            TileCollider { position: Position::new(0, 225_000), kind: WallType::Blocking },
            TileCollider {
                position: Position::new(50_000, 200_000),
                kind: WallType::Teleport { destination: Position::new(50_000, 200_000) }
            },
        ]
    );
    assert_eq!(map.spawn_points, vec![SpawnPoint { position: Position::new(25_000, 225_000) }]);
    assert_eq!(
        map.ghost_spawns,
        vec![GhostSpawn {
            spawn_for: GhostPersonality::Blinky,
            power_pellet: 0,
            position: Position::new(0, 200_000)
        }]
    );
    assert_eq!(
        map.food,
        vec![
            Food {
                is_eaten: false,
                kind: ConsumableType::PacDot,
                position: Position::new(50_000, 225_000),
                visible: true
            },
            Food {
                is_eaten: false,
                kind: ConsumableType::PowerPellet,
                position: Position::new(25_000, 200_000),
                visible: true
            },
        ]
    );
    assert_eq!(map.power_pellets.get(0), Some(Position::new(25_000, 200_000)));
    assert_eq!(map.power_pellets.get(1), None);
    assert_eq!(CELL_SIZE, 25_000);
    assert_eq!(FIRST_ROW, -10);
}

#[test]
fn rows_go_down_from_row_minus_ten() {
    let mut text = String::new();
    for _ in 0..12 {
        text.push('\n');
    }
    text.push_str("  S.");
    let map = TileMap::create_map(text.as_bytes()).unwrap();
    // row 2, columns 2 and 3
    assert_eq!(map.spawn_points, vec![SpawnPoint { position: Position::new(50_000, -50_000) }]);
    assert_eq!(map.food[0].position, Position::new(75_000, -50_000));
}

#[test]
fn every_teleport_leads_to_the_first() {
    let map = TileMap::create_map("S.|\n|  \n  |".as_bytes()).unwrap();
    let first = Position::new(50_000, 250_000);
    assert_eq!(
        map.tiles,
        vec![
            TileCollider { position: first, kind: WallType::Teleport { destination: first } },
            TileCollider { position: Position::new(0, 225_000), kind: WallType::Teleport { destination: first } },
            TileCollider {
                position: Position::new(50_000, 200_000),
                kind: WallType::Teleport { destination: first }
            },
        ]
    );
}

#[test]
fn power_pellets_are_numbered_in_the_order_of_the_text() {
    let map = TileMap::create_map("@S.@\n@".as_bytes()).unwrap();
    assert_eq!(map.power_pellets.get(0), Some(Position::new(0, 250_000)));
    assert_eq!(map.power_pellets.get(1), Some(Position::new(75_000, 250_000)));
    assert_eq!(map.power_pellets.get(2), Some(Position::new(0, 225_000)));
    assert_eq!(map.power_pellets.get(3), None);
    assert_eq!(map.power_pellets.scatter_zone(1, map_origin()), Some(Position::new(-254_000, 374_000)));
    assert_eq!(map.food.len(), 4);
}

#[test]
fn all_four_ghosts_spawn_with_zone_zero() {
    let map = TileMap::create_map("BPIC S.".as_bytes()).unwrap();
    let personalities: Vec<GhostPersonality> = map.ghost_spawns.iter().map(|s| s.spawn_for).collect();
    assert_eq!(
        personalities,
        vec![GhostPersonality::Blinky, GhostPersonality::Pinky, GhostPersonality::Inky, GhostPersonality::Clyde]
    );
    for (i, spawn) in map.ghost_spawns.iter().enumerate() {
        assert_eq!(spawn.power_pellet, 0);
        assert_eq!(spawn.position, Position::new(25_000 * i as i64, 250_000));
    }
}

#[test]
fn other_characters_leave_their_cells_empty() {
    let map = TileMap::create_map("xF#\r\n é#S.".as_bytes()).unwrap();
    // `é` takes two bytes and one column
    assert_eq!(
        map.tiles,
        vec![
            TileCollider { position: Position::new(50_000, 250_000), kind: WallType::Blocking },
            TileCollider { position: Position::new(50_000, 225_000), kind: WallType::Blocking },
        ]
    );
    assert_eq!(map.spawn_points[0].position, Position::new(75_000, 225_000));
    assert_eq!(map.food[0].position, Position::new(100_000, 225_000));
}

#[test]
fn map_without_spawn_or_food_is_refused() {
    assert_eq!(TileMap::create_map("###\n#.#".as_bytes()).err(), Some(MapError::NoSpawnOrFood));
    assert_eq!(TileMap::create_map("###\n#S#".as_bytes()).err(), Some(MapError::NoSpawnOrFood));
    assert_eq!(TileMap::create_map("".as_bytes()).err(), Some(MapError::NoSpawnOrFood));
    assert_eq!(TileMap::create_map("###".as_bytes()).err(), Some(MapError::NoSpawnOrFood));
    assert!(TileMap::create_map("S.".as_bytes()).is_ok());
}

#[test]
fn symbol_outside_the_world_is_refused() {
    let mut wide = String::from("S.");
    for _ in 0..3_999 {
        wide.push(' ');
    }
    // column 4001
    let mut too_wide = wide.clone();
    too_wide.push('#');
    assert_eq!(TileMap::create_map(too_wide.as_bytes()).err(), Some(MapError::OutOfWorld));
    // column 4000 is the last in the world
    let mut just_wide = String::from("S.");
    for _ in 0..3_998 {
        just_wide.push(' ');
    }
    just_wide.push('#');
    let map = TileMap::create_map(just_wide.as_bytes()).unwrap();
    assert_eq!(map.tiles[0].position, Position::new(100_000_000, 250_000));
    // a blank cell out there does no harm
    wide.push('x');
    assert!(TileMap::create_map(wide.as_bytes()).is_ok());

    let mut deep = String::from("S.");
    for _ in 0..4_010 {
        deep.push('\n');
    }
    let mut just_deep = deep.clone();
    just_deep.push('#');
    let map = TileMap::create_map(just_deep.as_bytes()).unwrap();
    assert_eq!(map.tiles[0].position, Position::new(0, -100_000_000));
    deep.push('\n');
    deep.push('#');
    assert_eq!(TileMap::create_map(deep.as_bytes()).err(), Some(MapError::OutOfWorld));
    // without spawn and food the map is refused for that, wherever its symbols stand
    let far = too_wide.replace("S", " ");
    assert_eq!(TileMap::create_map(far.as_bytes()).err(), Some(MapError::NoSpawnOrFood));
}

#[test]
fn bytes_are_found() {
    assert!(contains_byte("abc".as_bytes(), 98));
    assert!(!contains_byte("abc".as_bytes(), 100));
    assert!(!contains_byte("".as_bytes(), 0));
}

#[test]
fn map_is_put_back_on_its_origin() {
    let mut translation = Position::new(5, 5);
    assert!(MapEnforcer::check_map(&mut translation));
    assert_eq!(translation, Position::new(-329_000, 124_000));
    assert!(!MapEnforcer::check_map(&mut translation));
    assert_eq!(translation, Position::new(-329_000, 124_000));
    let mut off_by_one = Position::new(-329_000, 124_001);
    assert!(MapEnforcer::check_map(&mut off_by_one));
    assert_eq!(off_by_one, map_origin());
}
