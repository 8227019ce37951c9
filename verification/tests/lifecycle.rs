use maze_chase::game::enemy::lifecycle::{
    check_spawns_in_world, find_spawn, gate_positions, leave_through, GATE_EXIT_RISE,
};
use maze_chase::game::enemy::{GhostAgent, GhostPersonality, GhostSpawn, TickError};
use maze_chase::game::map::{check_tiles_in_world, TileCollider, WallType};
use maze_chase::game::util::PowerPellets;
use maze_chase::game::{CurrentDirection, EntityState, Position};

fn spawn(personality: GhostPersonality, x: i64, y: i64) -> GhostSpawn {
    GhostSpawn { spawn_for: personality, power_pellet: 0, position: Position::new(x, y) }
}

fn gate_in_world(x: i64, y: i64) -> TileCollider {
    TileCollider { position: Position::new(x + 329_000, y - 124_000), kind: WallType::Gate }
}

fn one_pellet() -> PowerPellets {
    let mut table = PowerPellets::new();
    table.insert(0, Position::new(329_000 - 50_000, -124_000 + 50_000));
    table
}

fn turn(
    ghost: &mut GhostAgent,
    transitioning: bool,
    walls: &Vec<TileCollider>,
    spawn_points: &Vec<GhostSpawn>,
) -> Result<(), TickError> {
    ghost.evaluate(
        Position::new(50_000, 0),
        CurrentDirection::Right,
        false,
        transitioning,
        walls,
        spawn_points,
        &one_pellet(),
        None,
    )
}

#[test]
fn first_spawn_point_of_the_personality_is_found() {
    let points = vec![
        spawn(GhostPersonality::Blinky, 100_000, 0),
        spawn(GhostPersonality::Pinky, 125_000, -25_000),
        spawn(GhostPersonality::Pinky, 0, 0),
    ];
    assert_eq!(find_spawn(&points, GhostPersonality::Pinky), Some(Position::new(125_000, -25_000)));
    assert_eq!(find_spawn(&points, GhostPersonality::Blinky), Some(Position::new(100_000, 0)));
    assert_eq!(find_spawn(&points, GhostPersonality::Inky), None);
    assert_eq!(find_spawn(&Vec::new(), GhostPersonality::Blinky), None);
    assert!(check_spawns_in_world(&points));
    assert!(!check_spawns_in_world(&vec![spawn(GhostPersonality::Clyde, 0, 100_000_001)]));
}

#[test]
fn spawning_ghost_enters_the_house() {
    let points = vec![
        spawn(GhostPersonality::Blinky, 100_000, 0),
        spawn(GhostPersonality::Pinky, 125_000, -25_000),
        spawn(GhostPersonality::Pinky, 0, 0),
        spawn(GhostPersonality::Inky, 150_000, -25_000),
        spawn(GhostPersonality::Clyde, 175_000, -25_000),
    ];
    let walls: Vec<TileCollider> = Vec::new();

    let mut pinky = GhostAgent::new(GhostPersonality::Pinky, 0);
    assert_eq!(turn(&mut pinky, false, &walls, &points), Ok(()));
    assert_eq!(pinky.state, EntityState::Respawning);
    assert_eq!(pinky.position, Position::new(-204_000, 99_000));
    assert_eq!(pinky.house_time, 300);
    assert!(!pinky.has_ai);

    let mut blinky = GhostAgent::new(GhostPersonality::Blinky, 0);
    blinky.house_time = 77;
    assert_eq!(turn(&mut blinky, false, &walls, &points), Ok(()));
    assert_eq!(blinky.state, EntityState::Respawning);
    assert_eq!(blinky.position, Position::new(-229_000, 124_000));
    assert_eq!(blinky.house_time, 0);

    let mut inky = GhostAgent::new(GhostPersonality::Inky, 0);
    inky.house_time = 0;
    assert_eq!(turn(&mut inky, false, &walls, &points), Ok(()));
    assert_eq!(inky.state, EntityState::Respawning);
    assert_eq!(inky.house_time, 600);

    let mut clyde = GhostAgent::new(GhostPersonality::Clyde, 0);
    clyde.house_time = 1;
    assert_eq!(turn(&mut clyde, false, &walls, &points), Ok(()));
    assert_eq!(clyde.state, EntityState::Respawning);
    assert_eq!(clyde.house_time, 900);
}

#[test]
fn spawning_ghost_waits_for_the_end_of_a_level_transition() {
    let points = vec![spawn(GhostPersonality::Pinky, 125_000, -25_000)];
    let walls: Vec<TileCollider> = Vec::new();
    let mut pinky = GhostAgent::new(GhostPersonality::Pinky, 0);
    pinky.house_time = 5;
    assert_eq!(turn(&mut pinky, true, &walls, &points), Ok(()));
    assert_eq!(pinky.state, EntityState::Created);
    assert_eq!(pinky.position, Position::new(-204_000, 99_000));
    assert_eq!(pinky.house_time, 300);
    assert!(!pinky.has_ai);
    assert_eq!(turn(&mut pinky, false, &walls, &points), Ok(()));
    assert_eq!(pinky.state, EntityState::Respawning);
    assert_eq!(pinky.house_time, 300);
}

#[test]
fn ghost_without_a_spawn_point_goes_on_spawning() {
    let points = vec![spawn(GhostPersonality::Pinky, 125_000, -25_000)];
    let walls: Vec<TileCollider> = Vec::new();
    let mut clyde = GhostAgent::new(GhostPersonality::Clyde, 0);
    clyde.position = Position::new(7, 7);
    assert_eq!(turn(&mut clyde, false, &walls, &points), Ok(()));
    assert_eq!(clyde.state, EntityState::Created);
    assert_eq!(clyde.position, Position::new(7, 7));
    assert_eq!(clyde.house_time, 900);
    assert!(!clyde.has_ai);
}

#[test]
fn dead_ghost_goes_to_spawning() {
    let walls: Vec<TileCollider> = Vec::new();
    let mut ghost = GhostAgent::new(GhostPersonality::Blinky, 0);
    ghost.state = EntityState::Dead;
    ghost.position = Position::new(10_000, 10_000);
    let before = ghost;
    assert_eq!(turn(&mut ghost, false, &walls, &Vec::new()), Ok(()));
    assert_eq!(ghost.state, EntityState::Created);
    assert_eq!(ghost.position, before.position);
    assert_eq!(ghost.has_ai, before.has_ai);
    let mut again = before;
    assert_eq!(turn(&mut again, true, &walls, &Vec::new()), Ok(()));
    assert_eq!(again.state, EntityState::Created);
}

#[test]
fn house_time_counts_down_and_the_ghost_leaves_by_the_gate() {
    let walls = vec![
        TileCollider { position: Position::new(25_000, 0), kind: WallType::Blocking },
        TileCollider { position: Position::new(50_000, 0), kind: WallType::Gate },
    ];
    let mut ghost = GhostAgent::new(GhostPersonality::Pinky, 0);
    ghost.state = EntityState::Respawning;
    ghost.has_ai = false;
    ghost.house_time = 2;
    ghost.position = Position::new(-279_000, 99_000);
    assert_eq!(turn(&mut ghost, false, &walls, &Vec::new()), Ok(()));
    assert_eq!((ghost.state, ghost.house_time), (EntityState::Respawning, 1));
    assert_eq!(ghost.position, Position::new(-279_000, 99_000));
    assert_eq!(turn(&mut ghost, false, &walls, &Vec::new()), Ok(()));
    assert_eq!((ghost.state, ghost.house_time), (EntityState::Respawning, 0));
    assert!(!ghost.has_ai);
    assert_eq!(turn(&mut ghost, false, &walls, &Vec::new()), Ok(()));
    assert_eq!((ghost.state, ghost.house_time), (EntityState::Alive, 0));
    assert!(ghost.has_ai);
    assert_eq!(ghost.position, Position::new(-279_000, 138_500));
}

#[test]
fn ghost_leaves_by_the_nearest_gate() {
    let walls = vec![gate_in_world(0, 0), gate_in_world(100_000, 0), gate_in_world(200_000, 0)];
    let mut ghost = GhostAgent::new(GhostPersonality::Blinky, 0);
    ghost.state = EntityState::Respawning;
    ghost.position = Position::new(60_000, 0);
    assert_eq!(turn(&mut ghost, false, &walls, &Vec::new()), Ok(()));
    assert_eq!(ghost.state, EntityState::Alive);
    assert_eq!(ghost.position, Position::new(100_000, 14_500));
    // half way between two gates the first of them is taken
    let mut ghost = GhostAgent::new(GhostPersonality::Blinky, 0);
    ghost.state = EntityState::Respawning;
    ghost.position = Position::new(150_000, 0);
    assert_eq!(turn(&mut ghost, false, &walls, &Vec::new()), Ok(()));
    assert_eq!(ghost.position, Position::new(100_000, 14_500));
}

#[test]
fn ghost_in_a_maze_without_a_gate_becomes_active_where_it_is() {
    let walls = vec![TileCollider { position: Position::new(25_000, 0), kind: WallType::Blocking }];
    let mut ghost = GhostAgent::new(GhostPersonality::Blinky, 0);
    ghost.state = EntityState::Respawning;
    ghost.position = Position::new(60_000, 0);
    assert_eq!(turn(&mut ghost, false, &walls, &Vec::new()), Ok(()));
    assert_eq!(ghost.state, EntityState::Alive);
    assert_eq!(ghost.position, Position::new(60_000, 0));
}

#[test]
fn ghost_that_may_not_have_its_ai_back_leaves_without_it() {
    let walls: Vec<TileCollider> = Vec::new();
    let mut ghost = GhostAgent::new(GhostPersonality::Blinky, 0);
    ghost.state = EntityState::Respawning;
    ghost.has_ai = false;
    ghost.award_ai = false;
    assert_eq!(turn(&mut ghost, false, &walls, &Vec::new()), Ok(()));
    assert_eq!(ghost.state, EntityState::Alive);
    assert!(!ghost.has_ai);
    // and without its AI it does not move
    let before = ghost;
    assert_eq!(turn(&mut ghost, false, &walls, &Vec::new()), Ok(()));
    assert_eq!(ghost, before);
}

#[test]
fn gate_exit_is_the_first_clear_rise() {
    assert_eq!(GATE_EXIT_RISE, 14_500);
    assert_eq!(leave_through(Position::new(0, 0)), Position::new(0, 14_500));
    assert_eq!(leave_through(Position::new(-279_000, 124_000)), Position::new(-279_000, 138_500));
    let walls = vec![
        gate_in_world(5, 6),
        TileCollider { position: Position::new(0, 0), kind: WallType::Blocking },
        TileCollider {
            position: Position::new(1, 1),
            kind: WallType::Teleport { destination: Position::new(2, 2) },
        },
        gate_in_world(-7, 8),
    ];
    assert_eq!(gate_positions(&walls), vec![Position::new(5, 6), Position::new(-7, 8)]);
    assert!(check_tiles_in_world(&walls));
    assert!(!check_tiles_in_world(&vec![gate_in_world(100_000_000, 0)]));
}

#[test]
fn level_transition_forces_every_ghost_to_spawning() {
    let walls: Vec<TileCollider> = Vec::new();
    let points = vec![spawn(GhostPersonality::Clyde, 175_000, -25_000)];
    for state in [EntityState::Alive, EntityState::Respawning, EntityState::Dead, EntityState::Created] {
        let mut ghost = GhostAgent::new(GhostPersonality::Clyde, 0);
        ghost.state = state;
        ghost.house_time = 3;
        assert_eq!(turn(&mut ghost, true, &walls, &points), Ok(()));
        assert_eq!(ghost.state, EntityState::Created);
        // and on its very next turn after the transition it is in the house
        assert_eq!(turn(&mut ghost, false, &walls, &points), Ok(()));
        assert_eq!(ghost.state, EntityState::Respawning);
        assert_eq!(ghost.house_time, 900);
        assert_eq!(ghost.position, Position::new(-154_000, 99_000));
    }
    let mut blinky = GhostAgent::new(GhostPersonality::Blinky, 0);
    blinky.state = EntityState::Alive;
    let points = vec![spawn(GhostPersonality::Blinky, 0, 0)];
    assert_eq!(turn(&mut blinky, true, &walls, &points), Ok(()));
    assert_eq!(blinky.state, EntityState::Created);
    assert_eq!(blinky.position, Position::new(0, 0));
    assert_eq!(turn(&mut blinky, false, &walls, &points), Ok(()));
    assert_eq!(blinky.state, EntityState::Respawning);
    assert_eq!(blinky.house_time, 0);
}

#[test]
fn energized_ghost_is_not_implemented() {
    let walls: Vec<TileCollider> = Vec::new();
    let mut ghost = GhostAgent::new(GhostPersonality::Blinky, 0);
    ghost.state = EntityState::Energized(4);
    let before = ghost;
    assert_eq!(turn(&mut ghost, false, &walls, &Vec::new()), Err(TickError::NotImplemented));
    assert_eq!(ghost, before);
    assert_eq!(turn(&mut ghost, true, &walls, &Vec::new()), Err(TickError::NotImplemented));
}

#[test]
fn ghost_without_its_scatter_zone_stops_the_tick() {
    let walls: Vec<TileCollider> = Vec::new();
    for state in [EntityState::Alive, EntityState::Respawning, EntityState::Dead, EntityState::Created, EntityState::Energized(1)] {
        let mut ghost = GhostAgent::new(GhostPersonality::Blinky, 1);
        ghost.state = state;
        let before = ghost;
        assert_eq!(turn(&mut ghost, false, &walls, &Vec::new()), Err(TickError::MissingScatterZone));
        assert_eq!(ghost, before);
    }
}

#[test]
fn active_ghost_moves_towards_what_it_pursues() {
    let walls: Vec<TileCollider> = Vec::new();
    let mut blinky = GhostAgent::new(GhostPersonality::Blinky, 0);
    blinky.state = EntityState::Alive;
    assert_eq!(turn(&mut blinky, false, &walls, &Vec::new()), Ok(()));
    assert_eq!(blinky.position, Position::new(2_000, 0));
    assert_eq!(blinky.helper.direction, Some(CurrentDirection::Right));
    assert_eq!(blinky.state, EntityState::Alive);
}

#[test]
fn chaser_flees_to_its_zone_as_soon_as_the_player_is_energized() {
    // the player is to the right, the zone up and to the left at (-50, 50) world units
    let walls: Vec<TileCollider> = Vec::new();
    let mut blinky = GhostAgent::new(GhostPersonality::Blinky, 0);
    blinky.state = EntityState::Alive;
    let player = Position::new(50_000, 0);
    let result = blinky.evaluate(
        player,
        CurrentDirection::Right,
        true,
        false,
        &walls,
        &Vec::new(),
        &one_pellet(),
        None,
    );
    assert_eq!(result, Ok(()));
    assert_eq!(blinky.position, Position::new(0, 2_000));
    assert_eq!(blinky.helper.direction, Some(CurrentDirection::Up));
}

#[test]
fn flanker_that_is_not_alive_stays() {
    let walls: Vec<TileCollider> = Vec::new();
    let mut inky = GhostAgent::new(GhostPersonality::Inky, 0);
    inky.state = EntityState::Alive;
    inky.alive = false;
    let before = inky;
    let result = inky.evaluate(
        Position::new(50_000, 0),
        CurrentDirection::Right,
        false,
        false,
        &walls,
        &Vec::new(),
        &one_pellet(),
        Some(Position::new(10_000, 0)),
    );
    assert_eq!(result, Ok(()));
    assert_eq!(inky, before);
    inky.alive = true;
    let result = inky.evaluate(
        Position::new(50_000, 0),
        CurrentDirection::Right,
        false,
        false,
        &walls,
        &Vec::new(),
        &one_pellet(),
        Some(Position::new(10_000, 0)),
    );
    assert_eq!(result, Ok(()));
    assert_eq!(inky.position, Position::new(2_000, 0));
}
