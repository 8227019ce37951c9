//! How a ghost comes into the maze, waits in the house and leaves it.

use vstd::prelude::*;
use crate::game::{Position, CurrentDirection, EntityState, UNIT, WORLD_LIMIT};
use crate::game::enemy::{
    GhostAgent, GhostPersonality, GhostSpawn, TickError, house_time_of, leave_time,
    lemma_move_ends_clear_of_tiles,
};
use crate::game::util::{PowerPellets, zone_in_world};
use crate::game::map::{TileCollider, WallType, tiles_in_world, default_map_origin, map_origin};
use crate::game::util::{
    boxes_overlap, calculate_next_step, candidates, choose_nearest, collide, get_real_pos,
    is_blocked, nearest, next_step, real_pos, ACTOR_FOOTPRINT, WALL_FOOTPRINT,
};

verus! {

/// Every spawn point of the sequence lies in the world.
pub open spec fn spawns_in_world(spawn_points: Seq<GhostSpawn>) -> bool {
    forall|i: int| 0 <= i < spawn_points.len() ==> (#[trigger] spawn_points[i]).position.in_world()
}

/// Tells whether every spawn point lies in the world.
pub fn check_spawns_in_world(spawn_points: &Vec<GhostSpawn>) -> (ok: bool)
    ensures
        ok == spawns_in_world(spawn_points@),
{
    let mut i: usize = 0;
    while i < spawn_points.len()
        invariant
            i <= spawn_points.len(),
            forall|j: int| 0 <= j < i ==> (#[trigger] spawn_points@[j]).position.in_world(),
        decreases spawn_points.len() - i,
    {
        if !spawn_points[i].position.is_in_world() {
            return false;
        }
        i += 1;
    }
    true
}

/// The first spawn point for the personality, relative to the map.
pub open spec fn spawn_place(spawn_points: Seq<GhostSpawn>, personality: GhostPersonality) -> Option<
    Position,
>
    decreases spawn_points.len(),
{
    if spawn_points.len() == 0 {
        None
    } else if spawn_points[0].spawn_for == personality {
        Some(spawn_points[0].position)
    } else {
        spawn_place(spawn_points.drop_first(), personality)
    }
}

/// The spawn place is that of the first spawn point for the personality,
/// and there is none exactly where no spawn point is for it.
pub proof fn lemma_spawn_place_is_first_match(
    spawn_points: Seq<GhostSpawn>,
    personality: GhostPersonality,
)
    ensures
        match spawn_place(spawn_points, personality) {
            Some(p) => exists|i: int|
                {
                    &&& 0 <= i < spawn_points.len()
                    &&& (#[trigger] spawn_points[i]).spawn_for == personality
                    &&& spawn_points[i].position == p
                    &&& forall|j: int| 0 <= j < i ==> (#[trigger] spawn_points[j]).spawn_for != personality
                },
            None => forall|i: int|
                0 <= i < spawn_points.len() ==> (#[trigger] spawn_points[i]).spawn_for != personality,
        },
    decreases spawn_points.len(),
{
    if spawn_points.len() == 0 {
    } else if spawn_points[0].spawn_for == personality {
        assert(spawn_points[0].spawn_for == personality);
    } else {
        let rest = spawn_points.drop_first();
        lemma_spawn_place_is_first_match(rest, personality);
        assert(forall|j: int| 0 <= j < rest.len() ==> rest[j] == spawn_points[j + 1]);
        match spawn_place(rest, personality) {
            Some(p) => {
                let i = choose|i: int|
                    {
                        &&& 0 <= i < rest.len()
                        &&& (#[trigger] rest[i]).spawn_for == personality
                        &&& rest[i].position == p
                        &&& forall|j: int| 0 <= j < i ==> (#[trigger] rest[j]).spawn_for != personality
                    };
                assert(spawn_points[i + 1].spawn_for == personality);
                assert forall|j: int| 0 <= j < i + 1 implies (#[trigger] spawn_points[j]).spawn_for
                    != personality by {
                    if j > 0 {
                        assert(rest[j - 1].spawn_for != personality);
                    }
                }
            },
            None => {
                assert forall|i: int| 0 <= i < spawn_points.len() implies (
                #[trigger] spawn_points[i]).spawn_for != personality by {
                    if i > 0 {
                        assert(rest[i - 1].spawn_for != personality);
                    }
                }
            },
        }
    }
}

/// Finds the first spawn point for the personality.
pub fn find_spawn(spawn_points: &Vec<GhostSpawn>, personality: GhostPersonality) -> (found: Option<
    Position,
>)
    ensures
        found == spawn_place(spawn_points@, personality),
        spawns_in_world(spawn_points@) ==> (found matches Some(p) ==> p.in_world()),
{
    let mut i: usize = 0;
    assert(spawn_points@.skip(0) =~= spawn_points@);
    while i < spawn_points.len()
        invariant
            i <= spawn_points.len(),
            spawn_place(spawn_points@, personality) == spawn_place(
                spawn_points@.skip(i as int),
                personality,
            ),
        decreases spawn_points.len() - i,
    {
        proof {
            let rest = spawn_points@.skip(i as int);
            assert(rest[0] == spawn_points@[i as int]);
            assert(rest.drop_first() =~= spawn_points@.skip(i + 1));
        }
        if spawn_points[i].spawn_for == personality {
            return Some(spawn_points[i].position);
        }
        i += 1;
    }
    None
}

/// The places in the world of all gate tiles, in the order of the tiles.
pub open spec fn gates(walls: Seq<TileCollider>) -> Seq<Position>
    decreases walls.len(),
{
    if walls.len() == 0 {
        Seq::empty()
    } else if walls.last().kind is Gate {
        gates(walls.drop_last()).push(real_pos(walls.last().position, default_map_origin()))
    } else {
        gates(walls.drop_last())
    }
}

/// Collects the places in the world of all gate tiles.
pub fn gate_positions(walls: &Vec<TileCollider>) -> (found: Vec<Position>)
    requires
        tiles_in_world(walls@),
    ensures
        found@ == gates(walls@),
        forall|i: int| 0 <= i < found@.len() ==> (#[trigger] found@[i]).within(2 * WORLD_LIMIT),
{
    let mut found: Vec<Position> = Vec::new();
    let mut i: usize = 0;
    assert(walls@.take(0) =~= Seq::<TileCollider>::empty());
    while i < walls.len()
        invariant
            i <= walls.len(),
            tiles_in_world(walls@),
            found@ == gates(walls@.take(i as int)),
            forall|j: int| 0 <= j < found@.len() ==> (#[trigger] found@[j]).within(2 * WORLD_LIMIT),
        decreases walls.len() - i,
    {
        proof {
            let upto = walls@.take(i + 1);
            assert(upto.drop_last() =~= walls@.take(i as int));
            assert(upto.last() == walls@[i as int]);
        }
        match walls[i].kind {
            WallType::Gate => {
                found.push(get_real_pos(walls[i].position, map_origin()));
            },
            _ => {},
        }
        i += 1;
    }
    assert(walls@.take(walls.len() as int) =~= walls@);
    found
}

/// How far above a gate a ghost stands when it has left the house: 14.5
/// world units.
pub const GATE_EXIT_RISE: i64 = 14500;

/// Where a ghost stands when it has left the house through `gate`.
pub open spec fn house_exit(gate: Position) -> Position {
    gate.offset(0, GATE_EXIT_RISE as int)
}

/// The point `k` world units above the point one player step above `gate`.
pub open spec fn rise_above(gate: Position, k: int) -> Position {
    gate.offset(0, next_step(false) + k * UNIT)
}

/// The house exit is the first of the points `rise_above(gate, 0)`,
/// `rise_above(gate, 1)`, ... at which a ghost no longer overlaps that gate
/// tile.
pub proof fn lemma_house_exit_is_first_clear_rise(gate: Position)
    requires
        gate.in_reach(),
    ensures
        house_exit(gate) == rise_above(gate, 12),
        !boxes_overlap(house_exit(gate), ACTOR_FOOTPRINT as int, gate, WALL_FOOTPRINT as int),
        forall|k: int|
            0 <= k < 12 ==> boxes_overlap(
                #[trigger] rise_above(gate, k),
                ACTOR_FOOTPRINT as int,
                gate,
                WALL_FOOTPRINT as int,
            ),
{
}

/// Steps outward from a gate, one world unit at a time, until a ghost no
/// longer overlaps that gate's tile, and returns where that is.
pub fn leave_through(gate: Position) -> (exit: Position)
    requires
        gate.within(2 * WORLD_LIMIT),
    ensures
        exit == house_exit(gate),
        exit.near_world(),
{
    let mut offset: i64 = 0;
    let mut target = Position { x: gate.x, y: gate.y + calculate_next_step(false) + offset };
    while collide(target, ACTOR_FOOTPRINT, gate, WALL_FOOTPRINT)
        invariant
            gate.within(2 * WORLD_LIMIT),
            0 <= offset <= 12 * UNIT,
            offset % UNIT == 0,
            target == gate.offset(0, next_step(false) + offset),
        decreases 12 * UNIT - offset,
    {
        offset += UNIT;
        target = Position { x: gate.x, y: gate.y + calculate_next_step(false) + offset };
    }
    target
}

/// What a ghost finds around it in one tick: the maze, the player and the
/// state of the game.
pub struct Scene {
    /// The tiles of the maze, relative to the map.
    pub walls: Seq<TileCollider>,
    /// The spawn points of the ghosts, relative to the map.
    pub spawn_points: Seq<GhostSpawn>,
    /// The power pellets by number, relative to the map.
    pub pellets: Map<usize, Position>,
    /// Where the player is, in the world.
    pub player_pos: Position,
    /// The direction the player last moved in.
    pub player_heading: CurrentDirection,
    /// The player is energized: the ghosts flee to their scatter zones.
    pub scatter_mode: bool,
    /// The maze is between two levels.
    pub transitioning: bool,
}

impl GhostAgent {
    /// The ghost after one tick of spawning. It loses its AI. Where a spawn
    /// point is for its personality it is put on the first such point and
    /// given the house time of its personality; it then waits in the house,
    /// or, between two levels, goes on spawning.
    pub open spec fn respawned(self, scene: Scene) -> GhostAgent {
        match spawn_place(scene.spawn_points, self.personality) {
            Some(p) => GhostAgent {
                has_ai: false,
                position: real_pos(p, default_map_origin()),
                house_time: leave_time(self.personality),
                state: if scene.transitioning {
                    EntityState::Created
                } else {
                    EntityState::Respawning
                },
                ..self
            },
            None => GhostAgent { has_ai: false, ..self },
        }
    }

    /// The ghost after it has left the house: active, with its AI back where
    /// that is allowed, and at the exit of that gate which is nearest to
    /// where it was; where it was, in a maze without a gate.
    pub open spec fn released(self, walls: Seq<TileCollider>) -> GhostAgent {
        GhostAgent {
            state: EntityState::Alive,
            has_ai: self.has_ai || self.award_ai,
            position: if gates(walls).len() == 0 {
                self.position
            } else {
                house_exit(nearest(gates(walls), self.position))
            },
            ..self
        }
    }

    /// The ghost moves in this tick: it is active and has its AI, and Inky
    /// is alive as well.
    pub open spec fn on_the_move(self) -> bool {
        &&& self.state == EntityState::Alive
        &&& self.has_ai
        &&& self.personality == GhostPersonality::Inky ==> self.alive
    }

    /// The ghost after its turn in one tick, or the reason why the tick
    /// stops at it. `ambusher` is where Pinky moved to earlier in this tick,
    /// if it moved.
    ///
    /// A ghost whose scatter zone is not in the table stops the tick, and so
    /// does one in the state `Energized`. A spawning ghost is put on its
    /// spawn point. Between two levels every other ghost goes back to
    /// spawning. Otherwise a dead ghost goes to spawning, a ghost in the
    /// house counts its house time down and leaves at zero, and an active
    /// ghost with its AI moves towards what it pursues.
    pub open spec fn evaluated(self, scene: Scene, ambusher: Option<Position>) -> Result<
        GhostAgent,
        TickError,
    > {
        match zone_in_world(scene.pellets, self.scatter_zone, default_map_origin()) {
            None => Err(TickError::MissingScatterZone),
            Some(zone) => match self.state {
                EntityState::Energized(_) => Err(TickError::NotImplemented),
                EntityState::Created => Ok(self.respawned(scene)),
                EntityState::Dead => Ok(GhostAgent { state: EntityState::Created, ..self }),
                EntityState::Respawning => if scene.transitioning {
                    Ok(GhostAgent { state: EntityState::Created, ..self })
                } else if self.house_time != 0 {
                    Ok(GhostAgent { house_time: (self.house_time - 1) as u64, ..self })
                } else {
                    Ok(self.released(scene.walls))
                },
                EntityState::Alive => if scene.transitioning {
                    Ok(GhostAgent { state: EntityState::Created, ..self })
                } else if !self.on_the_move() {
                    Ok(self)
                } else {
                    match self.target(
                        scene.player_pos,
                        scene.player_heading,
                        scene.scatter_mode,
                        zone,
                        ambusher,
                    ) {
                        Some(target) => self.pursued(target, scene.walls, scene.scatter_mode),
                        None => Ok(self),
                    }
                },
            },
        }
    }

    /// Gives the ghost its turn in one tick. Where the tick has to stop at
    /// it, the ghost is left as it was.
    pub fn evaluate(
        &mut self,
        player_pos: Position,
        player_heading: CurrentDirection,
        scatter_mode: bool,
        transitioning: bool,
        walls: &Vec<TileCollider>,
        spawn_points: &Vec<GhostSpawn>,
        power_pellets: &PowerPellets,
        ambusher: Option<Position>,
    ) -> (r: Result<(), TickError>)
        requires
            old(self).position.in_world(),
            player_pos.in_world(),
            tiles_in_world(walls@),
            spawns_in_world(spawn_points@),
            ambusher matches Some(p) ==> p.near_world(),
        ensures
            match old(self).evaluated(
                Scene {
                    walls: walls@,
                    spawn_points: spawn_points@,
                    pellets: power_pellets@,
                    player_pos,
                    player_heading,
                    scatter_mode,
                    transitioning,
                },
                ambusher,
            ) {
                Ok(after) => r is Ok && *final(self) == after,
                Err(e) => r == Err::<(), TickError>(e) && *final(self) == *old(self),
            },
            final(self).position.near_world(),
    {
        let zone = match power_pellets.scatter_zone(self.scatter_zone, map_origin()) {
            Some(zone) => zone,
            None => {
                return Err(TickError::MissingScatterZone);
            },
        };
        match self.state {
            EntityState::Energized(_) => {
                return Err(TickError::NotImplemented);
            },
            EntityState::Created => {
                self.has_ai = false;
                match find_spawn(spawn_points, self.personality) {
                    Some(p) => {
                        self.position = get_real_pos(p, map_origin());
                        self.house_time = house_time_of(self.personality);
                        if !transitioning {
                            self.state = EntityState::Respawning;
                        }
                    },
                    None => {},
                }
            },
            EntityState::Dead => {
                self.state = EntityState::Created;
            },
            EntityState::Respawning => {
                if transitioning {
                    self.state = EntityState::Created;
                } else if self.house_time != 0 {
                    self.house_time -= 1;
                } else {
                    self.state = EntityState::Alive;
                    if self.award_ai {
                        self.has_ai = true;
                    }
                    let found = gate_positions(walls);
                    if found.len() != 0 {
                        let gate = found[choose_nearest(&found, self.position)];
                        self.position = leave_through(gate);
                    }
                }
            },
            EntityState::Alive => {
                if transitioning {
                    self.state = EntityState::Created;
                } else if self.has_ai && (self.alive || !matches!(
                    self.personality,
                    GhostPersonality::Inky
                )) {
                    match self.pursuit_target(player_pos, player_heading, scatter_mode, zone, ambusher) {
                        Some(target) => {
                            return self.pursue(target, walls, scatter_mode);
                        },
                        None => {},
                    }
                }
            },
        }
        Ok(())
    }
}

impl GhostAgent {
    /// The ghost can have its turn: its scatter zone is in the table and it
    /// is in a state that has a behaviour.
    pub open spec fn can_take_turn(self, scene: Scene) -> bool {
        &&& scene.pellets.dom().contains(self.scatter_zone)
        &&& !(self.state is Energized)
    }
}

/// A turn fails for one of three reasons, each with its own error: the
/// scatter zone is missing, the state has no behaviour, or an active ghost
/// has to choose a move and has none. In every other case the turn is had.
pub proof fn lemma_turn_fails_only_for_cause(
    ghost_before: GhostAgent,
    scene: Scene,
    ambusher: Option<Position>,
)
    ensures
        match ghost_before.evaluated(scene, ambusher) {
            Ok(after) => ghost_before.can_take_turn(scene) && after.personality
                == ghost_before.personality && after.scatter_zone == ghost_before.scatter_zone,
            Err(TickError::MissingScatterZone) => !scene.pellets.dom().contains(
                ghost_before.scatter_zone,
            ),
            Err(TickError::NotImplemented) => scene.pellets.dom().contains(ghost_before.scatter_zone)
                && ghost_before.state is Energized,
            Err(TickError::NoLegalMove) => {
                &&& ghost_before.can_take_turn(scene)
                &&& ghost_before.on_the_move()
                &&& !scene.transitioning
                &&& candidates(
                    ghost_before.position,
                    ghost_before.helper.heading(),
                    scene.walls,
                ).len() == 0
            },
        },
{
}

/// Between two levels every ghost is forced to spawning, whatever state it
/// was in.
pub proof fn lemma_level_transition_forces_spawning(
    ghost_before: GhostAgent,
    scene: Scene,
    ambusher: Option<Position>,
)
    requires
        scene.transitioning,
        ghost_before.can_take_turn(scene),
    ensures
        ghost_before.evaluated(scene, ambusher) matches Ok(after) && after.state
            == EntityState::Created,
{
}

/// A spawning ghost is in the house after one turn outside a level
/// transition, on its spawn point, without its AI and with the house time
/// of its personality: none for Blinky, some for each of the others.
pub proof fn lemma_spawning_ghost_enters_house(
    ghost_before: GhostAgent,
    scene: Scene,
    ambusher: Option<Position>,
)
    requires
        ghost_before.state == EntityState::Created,
        !scene.transitioning,
        scene.pellets.dom().contains(ghost_before.scatter_zone),
        spawn_place(scene.spawn_points, ghost_before.personality) is Some,
    ensures
        ghost_before.evaluated(scene, ambusher) matches Ok(after) && {
            &&& after.state == EntityState::Respawning
            &&& after.house_time == leave_time(ghost_before.personality)
            &&& after.house_time == 0 <==> ghost_before.personality == GhostPersonality::Blinky
            &&& !after.has_ai
            &&& Some(after.position) == match spawn_place(
                scene.spawn_points,
                ghost_before.personality,
            ) {
                Some(p) => Some(real_pos(p, default_map_origin())),
                None => None,
            }
        },
{
}

/// A ghost that a level transition forces to spawning is in the house, with
/// the house time of its personality, after its very next turn once the
/// transition is over.
pub proof fn lemma_forced_spawn_reaches_house_next(
    ghost_before: GhostAgent,
    during: Scene,
    after_it: Scene,
    ambusher: Option<Position>,
    later_ambusher: Option<Position>,
)
    requires
        during.transitioning,
        !after_it.transitioning,
        ghost_before.can_take_turn(during),
        after_it.pellets.dom().contains(ghost_before.scatter_zone),
        spawn_place(after_it.spawn_points, ghost_before.personality) is Some,
    ensures
        ghost_before.evaluated(during, ambusher) matches Ok(forced) && forced.state
            == EntityState::Created && (forced.evaluated(after_it, later_ambusher) matches Ok(housed)
            && {
            &&& housed.state == EntityState::Respawning
            &&& housed.house_time == leave_time(ghost_before.personality)
            &&& housed.house_time == 0 <==> ghost_before.personality == GhostPersonality::Blinky
        }),
{
    lemma_level_transition_forces_spawning(ghost_before, during, ambusher);
    let forced = ghost_before.evaluated(during, ambusher)->Ok_0;
    lemma_spawning_ghost_enters_house(forced, after_it, later_ambusher);
}

/// In the house, outside a level transition, the house time goes down by
/// exactly one per turn as long as some is left, and the ghost that has
/// none left becomes active.
pub proof fn lemma_house_time_counts_down(
    ghost_before: GhostAgent,
    scene: Scene,
    ambusher: Option<Position>,
)
    requires
        ghost_before.state == EntityState::Respawning,
        !scene.transitioning,
        scene.pellets.dom().contains(ghost_before.scatter_zone),
    ensures
        ghost_before.evaluated(scene, ambusher) matches Ok(after) && if ghost_before.house_time > 0 {
            after.state == EntityState::Respawning && after.house_time + 1 == ghost_before.house_time
                && after.position == ghost_before.position
        } else {
            after.state == EntityState::Alive && after.house_time == 0 && (ghost_before.award_ai
                ==> after.has_ai)
        },
{
}

/// A dead ghost is spawning after its next turn.
pub proof fn lemma_dead_ghost_respawns(ghost_before: GhostAgent, scene: Scene, ambusher: Option<Position>)
    requires
        ghost_before.state == EntityState::Dead,
        scene.pellets.dom().contains(ghost_before.scatter_zone),
    ensures
        ghost_before.evaluated(scene, ambusher) matches Ok(after) && after.state
            == EntityState::Created,
{
}

/// No turn makes a ghost dead, or active from any state but the wait in the
/// house: the states follow one another as spawning, house, active, with
/// death coming from outside.
pub proof fn lemma_states_follow_in_order(
    ghost_before: GhostAgent,
    scene: Scene,
    ambusher: Option<Position>,
)
    ensures
        ghost_before.evaluated(scene, ambusher) matches Ok(after) ==> {
            &&& after.state != ghost_before.state ==> match ghost_before.state {
                EntityState::Created => after.state == EntityState::Respawning,
                EntityState::Respawning => after.state == EntityState::Alive || after.state
                    == EntityState::Created,
                EntityState::Alive => after.state == EntityState::Created,
                EntityState::Dead => after.state == EntityState::Created,
                EntityState::Energized(_) => false,
            }
            &&& after.state == EntityState::Created && ghost_before.state != EntityState::Created
                ==> ghost_before.state == EntityState::Dead || scene.transitioning
        },
{
}

/// An active ghost that stands clear of the tiles stands clear of them
/// after its turn: where it ends up it either stood before or it is not
/// blocked. Only a spawn point or the exit of a gate puts a ghost anywhere
/// else.
pub proof fn lemma_active_ghost_stays_clear(
    ghost_before: GhostAgent,
    scene: Scene,
    ambusher: Option<Position>,
)
    requires
        ghost_before.position.in_world(),
        ghost_before.state == EntityState::Alive,
    ensures
        ghost_before.evaluated(scene, ambusher) matches Ok(after) ==> after.position
            == ghost_before.position || !is_blocked(
            after.position,
            scene.walls,
            default_map_origin(),
        ),
{
    match zone_in_world(scene.pellets, ghost_before.scatter_zone, default_map_origin()) {
        Some(zone) => {
            match ghost_before.target(
                scene.player_pos,
                scene.player_heading,
                scene.scatter_mode,
                zone,
                ambusher,
            ) {
                Some(target) => {
                    lemma_move_ends_clear_of_tiles(
                        ghost_before,
                        target,
                        scene.walls,
                        scene.scatter_mode,
                    );
                },
                None => {},
            }
        },
        None => {},
    }
}

} // verus!
