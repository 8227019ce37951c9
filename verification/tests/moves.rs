use maze_chase::game::map::{TileCollider, WallType};
use maze_chase::game::util::{
    chase, choose_farthest, choose_nearest, determine_possible_moves, get_heighest_distance, holds,
};
use maze_chase::game::{CurrentDirection, Position};

// The map's origin is (-329, 124) world units: a tile put at `(x + 329_000, y - 124_000)`
// on the map stands at `(x, y)` in the world.
fn wall_in_world(x: i64, y: i64) -> TileCollider {
    TileCollider { position: Position::new(x + 329_000, y - 124_000), kind: WallType::Blocking }
}

#[test]
fn open_space_gives_four_moves_in_order() {
    let walls: Vec<TileCollider> = Vec::new();
    let me = Position::new(0, 0);
    let moves = determine_possible_moves(me, CurrentDirection::Idle, Position::new(0, 0), &walls);
    assert_eq!(moves.up, Some(Position::new(0, 2_000)));
    assert_eq!(moves.down, Some(Position::new(0, -2_000)));
    assert_eq!(moves.left, Some(Position::new(-2_000, 0)));
    assert_eq!(moves.right, Some(Position::new(2_000, 0)));
    assert_eq!(
        moves.all,
        vec![
            Position::new(0, 2_000),
            Position::new(0, -2_000),
            Position::new(-2_000, 0),
            Position::new(2_000, 0)
        ]
    );
    assert_eq!(moves.choice, None);
    assert_eq!(moves.alt_choice, None);
}

#[test]
fn reverse_of_the_heading_is_no_move() {
    let walls: Vec<TileCollider> = Vec::new();
    let me = Position::new(5_000, 5_000);
    let target = Position::new(0, 0);

    let going_up = determine_possible_moves(me, CurrentDirection::Up, target, &walls);
    assert_eq!(going_up.down, None);
    assert_eq!(
        going_up.all,
        vec![Position::new(5_000, 7_000), Position::new(3_000, 5_000), Position::new(7_000, 5_000)]
    );

    let going_down = determine_possible_moves(me, CurrentDirection::Down, target, &walls);
    assert_eq!(going_down.up, None);
    assert_eq!(going_down.all.len(), 3);
    assert!(!going_down.all.contains(&Position::new(5_000, 7_000)));

    let going_left = determine_possible_moves(me, CurrentDirection::Left, target, &walls);
    assert_eq!(going_left.right, None);
    assert!(!going_left.all.contains(&Position::new(7_000, 5_000)));

    let going_right = determine_possible_moves(me, CurrentDirection::Right, target, &walls);
    assert_eq!(going_right.left, None);
    assert!(!going_right.all.contains(&Position::new(3_000, 5_000)));
}

#[test]
fn blocked_directions_are_no_moves() {
    // a wall whose footprint reaches down to y = 1.375: the step up to y = 2 ends in it
    let walls = vec![wall_in_world(0, 15_000)];
    let me = Position::new(0, 0);
    let moves = determine_possible_moves(me, CurrentDirection::Idle, me, &walls);
    assert_eq!(moves.up, None);
    assert_eq!(moves.down, Some(Position::new(0, -2_000)));
    assert_eq!(moves.left, Some(Position::new(-2_000, 0)));
    assert_eq!(moves.right, Some(Position::new(2_000, 0)));
    assert_eq!(
        moves.all,
        vec![Position::new(0, -2_000), Position::new(-2_000, 0), Position::new(2_000, 0)]
    );
}

#[test]
fn boxed_in_ghost_has_no_moves() {
    let walls = vec![
        wall_in_world(0, 15_000),
        wall_in_world(0, -15_000),
        wall_in_world(15_000, 0),
        wall_in_world(-15_000, 0),
    ];
    let me = Position::new(0, 0);
    let moves = determine_possible_moves(me, CurrentDirection::Idle, me, &walls);
    assert!(moves.all.is_empty());
    assert_eq!(moves.up, None);
    assert_eq!(moves.down, None);
    assert_eq!(moves.left, None);
    assert_eq!(moves.right, None);
    assert!(chase(me, CurrentDirection::Idle, me, &walls).is_none());
    assert!(get_heighest_distance(me, CurrentDirection::Idle, me, &walls).is_none());
}

#[test]
fn chase_takes_the_nearest_move() {
    let walls: Vec<TileCollider> = Vec::new();
    let me = Position::new(0, 0);
    let found = chase(Position::new(50_000, 1_000), CurrentDirection::Idle, me, &walls).unwrap();
    assert_eq!(found.choice, Some(Position::new(2_000, 0)));
    assert_eq!(found.all.len(), 4);
    assert_eq!(found.alt_choice, None);
    let found = chase(Position::new(-1_000, -50_000), CurrentDirection::Idle, me, &walls).unwrap();
    assert_eq!(found.choice, Some(Position::new(0, -2_000)));
}

#[test]
fn chase_tie_goes_to_the_earlier_direction() {
    // no walls, and a target on the diagonal: up and right are equally near
    let walls: Vec<TileCollider> = Vec::new();
    let me = Position::new(0, 0);
    let found = chase(Position::new(5_000, 5_000), CurrentDirection::Idle, me, &walls).unwrap();
    assert_eq!(found.choice, Some(Position::new(0, 2_000)));
    assert_eq!(found.direction_of(found.choice.unwrap()), Some(CurrentDirection::Up));
    // down and left are equally near
    let found = chase(Position::new(-5_000, -5_000), CurrentDirection::Idle, me, &walls).unwrap();
    assert_eq!(found.choice, Some(Position::new(0, -2_000)));
    // down and right are equally near
    let found = chase(Position::new(5_000, -5_000), CurrentDirection::Idle, me, &walls).unwrap();
    assert_eq!(found.choice, Some(Position::new(0, -2_000)));
    // left and right are equally near, up and down farther
    let found = chase(Position::new(0, 0), CurrentDirection::Idle, me, &walls).unwrap();
    assert_eq!(found.choice, Some(Position::new(0, 2_000)));
}

#[test]
fn chase_tie_in_a_symmetric_maze() {
    // walls above and below: only left and right are open, and the target is straight above
    let walls = vec![wall_in_world(0, 15_000), wall_in_world(0, -15_000)];
    let me = Position::new(0, 0);
    let found = chase(Position::new(0, 40_000), CurrentDirection::Idle, me, &walls).unwrap();
    assert_eq!(found.all, vec![Position::new(-2_000, 0), Position::new(2_000, 0)]);
    assert_eq!(found.choice, Some(Position::new(-2_000, 0)));
}

#[test]
fn farthest_move_and_its_tie() {
    let walls: Vec<TileCollider> = Vec::new();
    let me = Position::new(0, 0);
    let found = get_heighest_distance(Position::new(50_000, 1_000), CurrentDirection::Idle, me, &walls).unwrap();
    assert_eq!(found.choice, Some(Position::new(-2_000, 0)));
    // up and right are equally near, down and left equally far: down comes first
    let found = get_heighest_distance(Position::new(5_000, 5_000), CurrentDirection::Idle, me, &walls).unwrap();
    assert_eq!(found.choice, Some(Position::new(0, -2_000)));
    // heading down: the moves are down, left, right
    let found = get_heighest_distance(Position::new(0, -9_000), CurrentDirection::Down, me, &walls).unwrap();
    assert_eq!(found.all.len(), 3);
    assert_eq!(found.choice, Some(Position::new(-2_000, 0)));
}

#[test]
fn nearest_and_farthest_by_index() {
    let all = vec![
        Position::new(10, 0),
        Position::new(0, 5),
        Position::new(0, -5),
        Position::new(-10, 0),
        Position::new(3, 4),
    ];
    let target = Position::new(0, 0);
    assert_eq!(choose_nearest(&all, target), 1);
    assert_eq!(choose_farthest(&all, target), 0);
    assert_eq!(choose_nearest(&all, Position::new(4, 4)), 4);
    assert_eq!(choose_farthest(&all, Position::new(9, 0)), 3);
    let one = vec![Position::new(1, 1)];
    assert_eq!(choose_nearest(&one, target), 0);
    assert_eq!(choose_farthest(&one, target), 0);
}

#[test]
fn direction_of_a_move() {
    let walls: Vec<TileCollider> = Vec::new();
    let moves = determine_possible_moves(Position::new(0, 0), CurrentDirection::Left, Position::new(0, 0), &walls);
    assert_eq!(moves.direction_of(Position::new(0, 2_000)), Some(CurrentDirection::Up));
    assert_eq!(moves.direction_of(Position::new(0, -2_000)), Some(CurrentDirection::Down));
    assert_eq!(moves.direction_of(Position::new(-2_000, 0)), Some(CurrentDirection::Left));
    assert_eq!(moves.direction_of(Position::new(2_000, 0)), None);
    assert_eq!(moves.direction_of(Position::new(1, 1)), None);
    assert!(holds(Some(Position::new(1, 2)), Position::new(1, 2)));
    assert!(!holds(Some(Position::new(1, 2)), Position::new(2, 1)));
    assert!(!holds(None, Position::new(0, 0)));
}
