//! The maze: its tiles, its origin in the world and what lies on it.

use vstd::prelude::*;
use crate::game::Position;
use crate::game::enemy::{GhostPersonality, GhostSpawn};
use crate::game::enemy::lifecycle::spawns_in_world;
use crate::game::table::{
    PositionTable, lookup, table_get, table_insert, table_is_empty, table_len, table_new,
};
use crate::game::util::{PowerPellets, pellets_in_world};

verus! {

/// Horizontal coordinate of the map's origin in the world: -329 world units.
pub const DEFAULT_MAP_ORIGIN_X: i64 = -329_000;

/// Vertical coordinate of the map's origin in the world: 124 world units.
pub const DEFAULT_MAP_ORIGIN_Y: i64 = 124_000;

/// Where the map's own zero point lies in the world. Tiles, spawn points and
/// pellets are kept relative to it; actors are kept in world coordinates.
pub open spec fn default_map_origin() -> Position {
    Position { x: DEFAULT_MAP_ORIGIN_X, y: DEFAULT_MAP_ORIGIN_Y }
}

/// The map's origin as a value.
#[verifier::when_used_as_spec(default_map_origin)]
pub fn map_origin() -> (origin: Position)
    ensures
        origin == default_map_origin(),
        origin.in_world(),
{
    Position { x: DEFAULT_MAP_ORIGIN_X, y: DEFAULT_MAP_ORIGIN_Y }
}

/// What kind of obstacle a tile is.
#[derive(Clone, Copy, Debug, PartialEq, Eq, Structural)]
pub enum WallType {
    Blocking,
    Teleport { destination: Position },
    Gate,
}

/// A tile that actors collide with: where it lies on the map, and its kind.
#[derive(Clone, Copy, Debug, PartialEq, Eq, Structural)]
pub struct TileCollider {
    pub position: Position,
    pub kind: WallType,
}

/// Every tile of the sequence lies in the world.
pub open spec fn tiles_in_world(walls: Seq<TileCollider>) -> bool {
    forall|i: int| 0 <= i < walls.len() ==> (#[trigger] walls[i]).position.in_world()
}

/// Tells whether every tile lies in the world.
pub fn check_tiles_in_world(walls: &Vec<TileCollider>) -> (ok: bool)
    ensures
        ok == tiles_in_world(walls@),
{
    let mut i: usize = 0;
    while i < walls.len()
        invariant
            i <= walls.len(),
            forall|j: int| 0 <= j < i ==> (#[trigger] walls@[j]).position.in_world(),
        decreases walls.len() - i,
    {
        if !walls[i].position.is_in_world() {
            return false;
        }
        i += 1;
    }
    true
}

/// A place on the map where the player comes into the maze.
#[derive(Clone, Copy, Debug, PartialEq, Eq, Structural)]
pub struct SpawnPoint {
    pub position: Position,
}

/// What a piece of food is.
#[derive(Clone, Copy, Debug, PartialEq, Eq, Structural)]
pub enum ConsumableType {
    PacDot,
    PowerPellet,
    Fruit,
}

/// A piece of food on the map.
#[derive(Clone, Copy, Debug, PartialEq, Eq, Structural)]
pub struct Food {
    pub is_eaten: bool,
    pub kind: ConsumableType,
    /// Where the food lies, relative to the map.
    pub position: Position,
    /// Whether the food is shown.
    pub visible: bool,
}

/// Why a map cannot be used.
#[derive(Clone, Copy, Debug, PartialEq, Eq, Structural)]
pub enum MapError {
    /// The map lacks a spawn point for the player, or food.
    NoSpawnOrFood,
    /// A symbol stands so far out that its place is not in the world.
    OutOfWorld,
}

/// What a map holds, as it was read from its text.
pub struct TileMap {
    /// Walls, teleports and gates, in the order of the text.
    pub tiles: Vec<TileCollider>,
    /// Where the player comes in.
    pub spawn_points: Vec<SpawnPoint>,
    /// Where the ghosts come in.
    pub ghost_spawns: Vec<GhostSpawn>,
    /// Pac-dots and power pellets, in the order of the text.
    pub food: Vec<Food>,
    /// The power pellets by number, counted from 0 in the order of the text.
    pub power_pellets: PowerPellets,
}

/// Distance between the centres of two neighbouring cells of the map: ten
/// tiles.
pub const CELL_SIZE: i64 = 25_000;

/// Row of the first line of a map's text. Rows count downwards.
pub const FIRST_ROW: i64 = -10;

/// Largest column and row, in either direction, whose cell lies in the
/// world.
pub const LAST_CELL: i64 = 4000;

/// The byte that ends a row.
pub const NEWLINE: u8 = 10;

/// `#`: a wall.
pub const WALL_SYMBOL: u8 = 35;

/// `|`: a teleport.
pub const TELEPORT_SYMBOL: u8 = 124;

/// `G`: a gate of the ghosts' house.
pub const GATE_SYMBOL: u8 = 71;

/// `S`: the player's spawn point.
pub const SPAWN_SYMBOL: u8 = 83;

/// `B`: Blinky's spawn point.
pub const BLINKY_SYMBOL: u8 = 66;

/// `P`: Pinky's spawn point.
pub const PINKY_SYMBOL: u8 = 80;

/// `I`: Inky's spawn point.
pub const INKY_SYMBOL: u8 = 73;

/// `C`: Clyde's spawn point.
pub const CLYDE_SYMBOL: u8 = 67;

/// `.`: a pac-dot.
pub const DOT_SYMBOL: u8 = 46;

/// `@`: a power pellet.
pub const PELLET_SYMBOL: u8 = 64;

/// The byte stands for something on the map.
pub open spec fn is_symbol(byte: u8) -> bool {
    ||| byte == WALL_SYMBOL
    ||| byte == TELEPORT_SYMBOL
    ||| byte == GATE_SYMBOL
    ||| byte == SPAWN_SYMBOL
    ||| byte == BLINKY_SYMBOL
    ||| byte == PINKY_SYMBOL
    ||| byte == INKY_SYMBOL
    ||| byte == CLYDE_SYMBOL
    ||| byte == DOT_SYMBOL
    ||| byte == PELLET_SYMBOL
}

/// The byte continues a character of several bytes: it starts no column of
/// its own.
pub open spec fn is_continuation(byte: u8) -> bool {
    128 <= byte < 192
}

/// The text holds the byte.
pub open spec fn has_byte(map: Seq<u8>, byte: u8) -> bool {
    exists|i: int| 0 <= i < map.len() && #[trigger] map[i] == byte
}

/// The map can be played: it has a spawn point for the player, and food.
pub open spec fn playable(map: Seq<u8>) -> bool {
    has_byte(map, SPAWN_SYMBOL) && has_byte(map, DOT_SYMBOL)
}

/// The cell lies in the world.
pub open spec fn cell_in_world(column: nat, row: int) -> bool {
    column <= LAST_CELL && -LAST_CELL <= row <= LAST_CELL
}

/// Where the cell lies, relative to the map: columns go to the right and
/// rows downwards, one cell size apart.
pub open spec fn cell(column: nat, row: int) -> Position {
    Position { x: (column * CELL_SIZE) as i64, y: (-(row * CELL_SIZE)) as i64 }
}

/// How far the reading of a map has come, and what it has found.
pub struct Scan {
    /// Column of the next character.
    pub column: nat,
    /// Row of the next character.
    pub row: int,
    pub tiles: Seq<TileCollider>,
    pub spawn_points: Seq<SpawnPoint>,
    pub ghost_spawns: Seq<GhostSpawn>,
    pub food: Seq<Food>,
    pub pellets: Map<usize, Position>,
    /// How many power pellets were found.
    pub pellet_count: nat,
    /// Where the first teleport lies, once one was found.
    pub first_teleport: Option<Position>,
}

/// The reading before the first byte.
pub open spec fn scan_start() -> Scan {
    Scan {
        column: 0,
        row: FIRST_ROW as int,
        tiles: Seq::empty(),
        spawn_points: Seq::empty(),
        ghost_spawns: Seq::empty(),
        food: Seq::empty(),
        pellets: Map::empty(),
        pellet_count: 0,
        first_teleport: None,
    }
}

/// The ghost spawn point that the symbol stands for.
pub open spec fn ghost_of(symbol: u8) -> Option<GhostPersonality> {
    if symbol == BLINKY_SYMBOL {
        Some(GhostPersonality::Blinky)
    } else if symbol == PINKY_SYMBOL {
        Some(GhostPersonality::Pinky)
    } else if symbol == INKY_SYMBOL {
        Some(GhostPersonality::Inky)
    } else if symbol == CLYDE_SYMBOL {
        Some(GhostPersonality::Clyde)
    } else {
        None
    }
}

/// The reading after what `symbol` stands for was put on the cell of the
/// next character. Every teleport leads to the first teleport of the map,
/// which leads to itself. Every ghost flees to power pellet 0.
pub open spec fn placed(s: Scan, symbol: u8) -> Scan {
    let pos = cell(s.column, s.row);
    if symbol == WALL_SYMBOL {
        Scan { tiles: s.tiles.push(TileCollider { position: pos, kind: WallType::Blocking }), ..s }
    } else if symbol == GATE_SYMBOL {
        Scan { tiles: s.tiles.push(TileCollider { position: pos, kind: WallType::Gate }), ..s }
    } else if symbol == TELEPORT_SYMBOL {
        let first = match s.first_teleport {
            Some(first) => first,
            None => pos,
        };
        Scan {
            tiles: s.tiles.push(
                TileCollider { position: pos, kind: WallType::Teleport { destination: first } },
            ),
            first_teleport: Some(first),
            ..s
        }
    } else if symbol == SPAWN_SYMBOL {
        Scan { spawn_points: s.spawn_points.push(SpawnPoint { position: pos }), ..s }
    } else if ghost_of(symbol) is Some {
        Scan {
            ghost_spawns: s.ghost_spawns.push(
                GhostSpawn { spawn_for: ghost_of(symbol)->Some_0, power_pellet: 0, position: pos },
            ),
            ..s
        }
    } else if symbol == DOT_SYMBOL {
        Scan {
            food: s.food.push(
                Food { is_eaten: false, kind: ConsumableType::PacDot, position: pos, visible: true },
            ),
            ..s
        }
    } else if symbol == PELLET_SYMBOL {
        Scan {
            food: s.food.push(
                Food {
                    is_eaten: false,
                    kind: ConsumableType::PowerPellet,
                    position: pos,
                    visible: true,
                },
            ),
            pellets: s.pellets.insert(s.pellet_count as usize, pos),
            pellet_count: s.pellet_count + 1,
            ..s
        }
    } else {
        s
    }
}

/// The reading after one more byte, or nothing where the byte is a symbol
/// on a cell outside the world. A newline starts the next row. A byte that
/// continues a character counts for nothing. Every other byte takes up one
/// column, symbol or not.
pub open spec fn scan_step(s: Scan, byte: u8) -> Option<Scan> {
    if byte == NEWLINE {
        Some(Scan { column: 0, row: s.row + 1, ..s })
    } else if is_continuation(byte) {
        Some(s)
    } else if is_symbol(byte) && !cell_in_world(s.column, s.row) {
        None
    } else {
        Some(Scan { column: s.column + 1, ..placed(s, byte) })
    }
}

/// The reading after the first `n` bytes of the text.
pub open spec fn scan(map: Seq<u8>, n: nat) -> Option<Scan>
    decreases n,
{
    if n == 0 {
        Some(scan_start())
    } else {
        match scan(map, (n - 1) as nat) {
            Some(s) => scan_step(s, map[n - 1]),
            None => None,
        }
    }
}

/// Tells whether the text holds the byte.
pub fn contains_byte(map: &[u8], byte: u8) -> (found: bool)
    ensures
        found == has_byte(map@, byte),
{
    let mut i: usize = 0;
    while i < map.len()
        invariant
            i <= map.len(),
            forall|j: int| 0 <= j < i ==> map@[j] != byte,
        decreases map.len() - i,
    {
        if map[i] == byte {
            return true;
        }
        i += 1;
    }
    false
}

/// Once the reading has met a symbol outside the world it has failed for
/// good.
pub proof fn lemma_scan_stays_failed(map: Seq<u8>, n: nat, m: nat)
    requires
        n <= m,
        scan(map, n) is None,
    ensures
        scan(map, m) is None,
    decreases m - n,
{
    if n < m {
        lemma_scan_stays_failed(map, n, (m - 1) as nat);
    }
}

/// The teleports found so far are kept under the numbers from 1 on, and the
/// first of them is `first`.
pub open spec fn teleports_kept(table: Map<usize, Position>, count: nat, first: Option<Position>) -> bool {
    &&& table.dom().finite()
    &&& table.dom().len() == count
    &&& forall|k: usize| table.dom().contains(k) <==> 1 <= k <= count
    &&& lookup(table, 1) == first
}

impl TileMap {
    /// The map holds what the reading has found.
    pub open spec fn holds(&self, s: Scan) -> bool {
        &&& self.tiles@ == s.tiles
        &&& self.spawn_points@ == s.spawn_points
        &&& self.ghost_spawns@ == s.ghost_spawns
        &&& self.food@ == s.food
        &&& self.power_pellets@ == s.pellets
    }

    /// Everything on the map lies in the world.
    pub open spec fn in_world(&self) -> bool {
        &&& tiles_in_world(self.tiles@)
        &&& spawns_in_world(self.ghost_spawns@)
        &&& pellets_in_world(self.power_pellets@)
        &&& forall|i: int|
            0 <= i < self.spawn_points@.len() ==> (#[trigger] self.spawn_points@[i]).position.in_world()
        &&& forall|i: int| 0 <= i < self.food@.len() ==> (#[trigger] self.food@[i]).position.in_world()
    }

    /// Puts what `symbol` stands for on the map at `pos`.
    fn put(
        &mut self,
        teleport_locations: &mut PositionTable,
        power_pellets: &mut usize,
        symbol: u8,
        pos: Position,
        Ghost(s): Ghost<Scan>,
        Ghost(teleports): Ghost<nat>,
    )
        requires
            old(self).holds(s),
            old(self).in_world(),
            pos == cell(s.column, s.row),
            pos.in_world(),
            *old(power_pellets) == s.pellet_count,
            s.pellet_count < usize::MAX,
            teleports < usize::MAX,
            teleports_kept(old(teleport_locations)@, teleports, s.first_teleport),
        ensures
            final(self).holds(placed(s, symbol)),
            final(self).in_world(),
            *final(power_pellets) == placed(s, symbol).pellet_count,
            teleports_kept(
                final(teleport_locations)@,
                if symbol == TELEPORT_SYMBOL {
                    teleports + 1
                } else {
                    teleports
                },
                placed(s, symbol).first_teleport,
            ),
            placed(s, symbol).pellet_count <= s.pellet_count + 1,
    {
        if symbol == WALL_SYMBOL {
            self.tiles.push(TileCollider { position: pos, kind: WallType::Blocking });
        } else if symbol == GATE_SYMBOL {
            self.tiles.push(TileCollider { position: pos, kind: WallType::Gate });
        } else if symbol == TELEPORT_SYMBOL {
            let destination = if !table_is_empty(teleport_locations) {
                match table_get(teleport_locations, 1) {
                    Some(first) => first,
                    None => pos,
                }
            } else {
                assert(teleports == 0) by {
                    if teleports > 0 {
                        assert(teleport_locations@.dom().contains(1usize));
                    }
                }
                pos
            };
            assert(teleports > 0 ==> teleport_locations@.dom().contains(1usize));
            assert(teleports == 0 ==> !teleport_locations@.dom().contains(1usize));
            self.tiles.push(
                TileCollider { position: pos, kind: WallType::Teleport { destination } },
            );
            let number = table_len(teleport_locations) + 1;
            table_insert(teleport_locations, number, pos);
        } else if symbol == SPAWN_SYMBOL {
            self.spawn_points.push(SpawnPoint { position: pos });
        } else if symbol == BLINKY_SYMBOL {
            self.ghost_spawns.push(
                GhostSpawn { spawn_for: GhostPersonality::Blinky, power_pellet: 0, position: pos },
            );
        } else if symbol == PINKY_SYMBOL {
            self.ghost_spawns.push(
                GhostSpawn { spawn_for: GhostPersonality::Pinky, power_pellet: 0, position: pos },
            );
        } else if symbol == INKY_SYMBOL {
            self.ghost_spawns.push(
                GhostSpawn { spawn_for: GhostPersonality::Inky, power_pellet: 0, position: pos },
            );
        } else if symbol == CLYDE_SYMBOL {
            self.ghost_spawns.push(
                GhostSpawn { spawn_for: GhostPersonality::Clyde, power_pellet: 0, position: pos },
            );
        } else if symbol == DOT_SYMBOL {
            self.food.push(
                Food { is_eaten: false, kind: ConsumableType::PacDot, position: pos, visible: true },
            );
        } else if symbol == PELLET_SYMBOL {
            self.food.push(
                Food {
                    is_eaten: false,
                    kind: ConsumableType::PowerPellet,
                    position: pos,
                    visible: true,
                },
            );
            self.power_pellets.insert(*power_pellets, pos);
            *power_pellets = *power_pellets + 1;
        }
    }

    /// Reads a map from its text. Each line of the text is a row of cells
    /// and each character a cell; the symbols stand for walls, gates,
    /// teleports, spawn points and food, and every other character leaves
    /// its cell empty. A text without a spawn point for the player or
    /// without a pac-dot is refused, and so is one with a symbol on a cell
    /// outside the world.
    pub fn create_map(map: &[u8]) -> (r: Result<TileMap, MapError>)
        ensures
            match r {
                Ok(made) => {
                    &&& playable(map@)
                    &&& scan(map@, map@.len()) matches Some(s) && made.holds(s)
                    &&& made.in_world()
                },
                Err(MapError::NoSpawnOrFood) => !playable(map@),
                Err(MapError::OutOfWorld) => playable(map@) && scan(map@, map@.len()) is None,
            },
    {
        if !contains_byte(map, SPAWN_SYMBOL) || !contains_byte(map, DOT_SYMBOL) {
            return Err(MapError::NoSpawnOrFood);
        }
        let mut made = TileMap {
            tiles: Vec::new(),
            spawn_points: Vec::new(),
            ghost_spawns: Vec::new(),
            food: Vec::new(),
            power_pellets: PowerPellets::new(),
        };
        let mut teleport_locations = table_new();
        let mut power_pellets: usize = 0;
        let mut column: usize = 0;
        let mut row: i64 = FIRST_ROW;
        let ghost mut s = scan_start();
        let ghost mut teleports: nat = 0;
        let mut i: usize = 0;
        while i < map.len()
            invariant
                i <= map.len(),
                playable(map@),
                scan(map@, i as nat) == Some(s),
                made.holds(s),
                made.in_world(),
                column == s.column,
                column <= i,
                FIRST_ROW <= s.row,
                row == if s.row <= LAST_CELL {
                    s.row
                } else {
                    LAST_CELL + 1
                },
                power_pellets == s.pellet_count,
                power_pellets <= i,
                teleports <= i,
                teleports_kept(teleport_locations@, teleports, s.first_teleport),
            decreases map.len() - i,
        {
            let byte = map[i];
            if byte == NEWLINE {
                column = 0;
                if row <= LAST_CELL {
                    row += 1;
                }
                proof {
                    s = Scan { column: 0, row: s.row + 1, ..s };
                }
            } else if 128 <= byte && byte < 192 {
            } else {
                let symbol = byte == WALL_SYMBOL || byte == TELEPORT_SYMBOL || byte == GATE_SYMBOL
                    || byte == SPAWN_SYMBOL || byte == BLINKY_SYMBOL || byte == PINKY_SYMBOL || byte
                    == INKY_SYMBOL || byte == CLYDE_SYMBOL || byte == DOT_SYMBOL || byte
                    == PELLET_SYMBOL;
                if symbol {
                    if column > 4000 || row > LAST_CELL {
                        proof {
                            lemma_scan_stays_failed(map@, (i + 1) as nat, map@.len());
                        }
                        return Err(MapError::OutOfWorld);
                    }
                    let x: i64 = (column as i64) * CELL_SIZE;
                    let y: i64 = -(row * CELL_SIZE);
                    let pos = Position { x, y };
                    made.put(
                        &mut teleport_locations,
                        &mut power_pellets,
                        byte,
                        pos,
                        Ghost(s),
                        Ghost(teleports),
                    );
                    proof {
                        if byte == TELEPORT_SYMBOL {
                            teleports = teleports + 1;
                        }
                    }
                }
                column += 1;
                proof {
                    s = Scan { column: s.column + 1, ..placed(s, byte) };
                }
            }
            i += 1;
        }
        Ok(made)
    }
}

/// Keeps the map where it belongs.
pub struct MapEnforcer;

impl MapEnforcer {
    /// Checks that the map stands on its origin and puts it back there
    /// where it does not. Tells whether it had to.
    pub fn check_map(translation: &mut Position) -> (corrected: bool)
        ensures
            *final(translation) == default_map_origin(),
            corrected == (*old(translation) != default_map_origin()),
    {
        if translation.x != DEFAULT_MAP_ORIGIN_X || translation.y != DEFAULT_MAP_ORIGIN_Y {
            *translation = map_origin();
            true
        } else {
            false
        }
    }
}

} // verus!
