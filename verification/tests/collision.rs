use maze_chase::game::map::{map_origin, TileCollider, WallType, DEFAULT_MAP_ORIGIN_X, DEFAULT_MAP_ORIGIN_Y};
use maze_chase::game::util::{
    calculate_distance, calculate_next_step, check_collosion, collide, do_i_run, get_pos_infront_of_pacman,
    get_real_pos, step_from, ACTOR_FOOTPRINT, WALL_FOOTPRINT,
};
use maze_chase::game::{CurrentDirection, Position, TILE_SIZE, UNIT};

fn wall_at(x: i64, y: i64) -> TileCollider {
    TileCollider { position: Position::new(x, y), kind: WallType::Blocking }
}

#[test]
fn origin_is_where_the_map_is_anchored() {
    let origin = map_origin();
    assert_eq!(origin, Position::new(-329_000, 124_000));
    assert_eq!(origin.x, DEFAULT_MAP_ORIGIN_X);
    assert_eq!(origin.y, DEFAULT_MAP_ORIGIN_Y);
    assert!(origin.is_in_world());
}

#[test]
fn real_position_adds_the_origin() {
    let real = get_real_pos(Position::new(25_000, -50_000), map_origin());
    assert_eq!(real, Position::new(-304_000, 74_000));
}

#[test]
fn position_on_a_wall_is_blocked() {
    let walls = vec![wall_at(0, 0), wall_at(25_000, 0)];
    let origin = Position::new(0, 0);
    assert!(check_collosion(Position::new(25_000, 0), &walls, origin));
    assert!(check_collosion(Position::new(0, 0), &walls, origin));
}

#[test]
fn position_on_a_wall_is_blocked_with_the_map_origin() {
    let walls = vec![wall_at(50_000, -25_000)];
    let on_wall = get_real_pos(walls[0].position, map_origin());
    assert!(check_collosion(on_wall, &walls, map_origin()));
    // the same numbers without the origin are far from the wall
    assert!(!check_collosion(Position::new(50_000, -25_000), &walls, map_origin()));
}

#[test]
fn position_clear_of_every_wall_is_not_blocked() {
    let walls = vec![wall_at(0, 0), wall_at(25_000, 0), wall_at(0, 25_000)];
    let origin = Position::new(0, 0);
    assert!(!check_collosion(Position::new(60_000, 60_000), &walls, origin));
    assert!(!check_collosion(Position::new(-20_000, -20_000), &walls, origin));
}

#[test]
fn no_walls_block_nothing() {
    let walls: Vec<TileCollider> = Vec::new();
    assert!(!check_collosion(Position::new(0, 0), &walls, map_origin()));
}

#[test]
fn footprints_that_touch_do_not_overlap() {
    let walls = vec![wall_at(0, 0)];
    let origin = Position::new(0, 0);
    // half footprints: 1.125 and 12.5 world units, together 13.625
    assert!(check_collosion(Position::new(13_624, 0), &walls, origin));
    assert!(!check_collosion(Position::new(13_625, 0), &walls, origin));
    assert!(check_collosion(Position::new(-13_624, 0), &walls, origin));
    assert!(!check_collosion(Position::new(-13_625, 0), &walls, origin));
    assert!(check_collosion(Position::new(0, 13_624), &walls, origin));
    assert!(!check_collosion(Position::new(0, 13_625), &walls, origin));
    assert!(check_collosion(Position::new(13_624, -13_624), &walls, origin));
    assert!(!check_collosion(Position::new(13_624, -13_625), &walls, origin));
}

#[test]
fn gates_and_teleports_block_like_walls() {
    let origin = Position::new(0, 0);
    let gate = vec![TileCollider { position: Position::new(0, 0), kind: WallType::Gate }];
    let teleport = vec![TileCollider {
        position: Position::new(0, 0),
        kind: WallType::Teleport { destination: Position::new(100_000, 0) },
    }];
    assert!(check_collosion(Position::new(1_000, 1_000), &gate, origin));
    assert!(check_collosion(Position::new(1_000, 1_000), &teleport, origin));
}

#[test]
fn footprints_are_fractions_of_a_tile() {
    assert_eq!(ACTOR_FOOTPRINT, TILE_SIZE * 9 / 10);
    assert_eq!(WALL_FOOTPRINT, TILE_SIZE * 10);
}

#[test]
fn squares_overlap_when_they_share_an_inner_point() {
    let a = Position::new(0, 0);
    assert!(collide(a, 2_000, Position::new(1_999, 0), 2_000));
    assert!(!collide(a, 2_000, Position::new(2_000, 0), 2_000));
    assert!(collide(a, 2_000, Position::new(-1_999, 1_999), 2_000));
    assert!(!collide(a, 2_000, Position::new(0, -2_000), 2_000));
    assert!(collide(a, 1_000, a, 1_000));
    // odd edges: half edges of 0.5005 and 1.0005 world units
    assert!(collide(a, 1_001, Position::new(1_500, 0), 2_001));
    assert!(!collide(a, 1_001, Position::new(1_501, 0), 2_001));
}

#[test]
fn step_sizes() {
    assert_eq!(calculate_next_step(true), 2_000);
    assert_eq!(calculate_next_step(false), 2_500);
    assert_eq!(UNIT, 1_000);
}

#[test]
fn distance_is_squared() {
    assert_eq!(calculate_distance(Position::new(3_000, 4_000), Position::new(0, 0)), 25_000_000);
    assert_eq!(calculate_distance(Position::new(-1_000, 2_000), Position::new(2_000, -2_000)), 25_000_000);
    assert_eq!(calculate_distance(Position::new(7, 7), Position::new(7, 7)), 0);
    assert_eq!(
        calculate_distance(Position::new(1_000_000_000, 1_000_000_000), Position::new(-1_000_000_000, -1_000_000_000)),
        8_000_000_000_000_000_000
    );
}

#[test]
fn steps_go_where_the_direction_points() {
    let p = Position::new(10, 20);
    assert_eq!(step_from(p, CurrentDirection::Up, 5), Position::new(10, 25));
    assert_eq!(step_from(p, CurrentDirection::Down, 5), Position::new(10, 15));
    assert_eq!(step_from(p, CurrentDirection::Left, 5), Position::new(5, 20));
    assert_eq!(step_from(p, CurrentDirection::Right, 5), Position::new(15, 20));
    assert_eq!(step_from(p, CurrentDirection::Idle, 5), p);
}

#[test]
fn ambush_point_is_four_player_steps_ahead() {
    let p = Position::new(1_000, -2_000);
    assert_eq!(get_pos_infront_of_pacman(p, CurrentDirection::Up), Position::new(1_000, 8_000));
    assert_eq!(get_pos_infront_of_pacman(p, CurrentDirection::Down), Position::new(1_000, -12_000));
    assert_eq!(get_pos_infront_of_pacman(p, CurrentDirection::Left), Position::new(-9_000, -2_000));
    assert_eq!(get_pos_infront_of_pacman(p, CurrentDirection::Right), Position::new(11_000, -2_000));
    assert_eq!(get_pos_infront_of_pacman(p, CurrentDirection::Idle), p);
}

#[test]
fn running_starts_beyond_eight_units() {
    let me = Position::new(0, 0);
    assert!(!do_i_run(Position::new(8_000, 0), me));
    assert!(do_i_run(Position::new(8_001, 0), me));
    assert!(!do_i_run(Position::new(4_800, 6_400), me));
    assert!(do_i_run(Position::new(4_800, 6_401), me));
    assert!(!do_i_run(me, me));
}

#[test]
fn opposite_directions() {
    assert_eq!(CurrentDirection::Up.opposite(), CurrentDirection::Down);
    assert_eq!(CurrentDirection::Down.opposite(), CurrentDirection::Up);
    assert_eq!(CurrentDirection::Left.opposite(), CurrentDirection::Right);
    assert_eq!(CurrentDirection::Right.opposite(), CurrentDirection::Left);
    assert_eq!(CurrentDirection::Idle.opposite(), CurrentDirection::Idle);
}

#[test]
fn world_and_reach_limits() {
    assert!(Position::new(100_000_000, -100_000_000).is_in_world());
    assert!(!Position::new(100_000_001, 0).is_in_world());
    assert!(!Position::new(0, -100_000_001).is_in_world());
    assert!(Position::new(1_000_000_000, -1_000_000_000).is_in_reach());
    assert!(!Position::new(0, 1_000_000_001).is_in_reach());
}
