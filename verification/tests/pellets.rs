use maze_chase::game::map::map_origin;
use maze_chase::game::util::PowerPellets;
use maze_chase::game::Position;

#[test]
fn new_table_holds_nothing() {
    let table = PowerPellets::new();
    assert_eq!(table.get(0), None);
    assert_eq!(table.get(7), None);
    assert_eq!(table.scatter_zone(0, map_origin()), None);
    let table = PowerPellets::default();
    assert_eq!(table.get(0), None);
}

#[test]
fn inserted_pellet_is_found_under_its_number() {
    let mut table = PowerPellets::new();
    assert_eq!(table.insert(0, Position::new(25_000, -50_000)), None);
    assert_eq!(table.insert(3, Position::new(75_000, 0)), None);
    assert_eq!(table.get(0), Some(Position::new(25_000, -50_000)));
    assert_eq!(table.get(3), Some(Position::new(75_000, 0)));
    assert_eq!(table.get(1), None);
    assert_eq!(table.get(25_000), None);
}

#[test]
fn insert_replaces_and_returns_the_pellet_before() {
    let mut table = PowerPellets::new();
    assert_eq!(table.insert(2, Position::new(1, 1)), None);
    assert_eq!(table.insert(2, Position::new(5, 6)), Some(Position::new(1, 1)));
    assert_eq!(table.get(2), Some(Position::new(5, 6)));
    assert_eq!(table.insert(2, Position::new(9, 9)), Some(Position::new(5, 6)));
}

#[test]
fn scatter_zone_is_the_pellet_in_the_world() {
    let mut table = PowerPellets::new();
    table.insert(1, Position::new(25_000, -50_000));
    assert_eq!(table.scatter_zone(1, map_origin()), Some(Position::new(-304_000, 74_000)));
    assert_eq!(table.scatter_zone(1, Position::new(0, 0)), Some(Position::new(25_000, -50_000)));
    assert_eq!(table.scatter_zone(0, map_origin()), None);
}
