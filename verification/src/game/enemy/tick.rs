//! One tick of all the ghosts, in the order that lets Inky see where Pinky
//! went.

use vstd::prelude::*;
use crate::game::{Position, MovementHelper, EntityState};
use crate::game::enemy::{GhostAgent, GhostPersonality, GhostSpawn, TickError};
use crate::game::enemy::lifecycle::{Scene, check_spawns_in_world, spawns_in_world};
use crate::game::map::{TileCollider, check_tiles_in_world, tiles_in_world};
use crate::game::player::{GameData, PlayerData};
use crate::game::util::PowerPellets;

verus! {

/// How far a tick has come: the ghosts as they are now, where Pinky moved
/// to, if it has moved, and the error that stopped the tick, if one did.
pub struct Round {
    pub ghosts: Seq<GhostAgent>,
    pub ambusher: Option<Position>,
    pub error: Option<TickError>,
}

/// Every ghost of the sequence stands in the world.
pub open spec fn ghosts_in_world(ghosts: Seq<GhostAgent>) -> bool {
    forall|i: int| 0 <= i < ghosts.len() ==> (#[trigger] ghosts[i]).position.in_world()
}

/// Every ghost of the sequence stands near the world, as ghosts do after
/// a tick.
pub open spec fn ghosts_near_world(ghosts: Seq<GhostAgent>) -> bool {
    forall|i: int| 0 <= i < ghosts.len() ==> (#[trigger] ghosts[i]).position.near_world()
}

/// Tells whether every ghost stands in the world.
pub fn check_ghosts_in_world(ghosts: &Vec<GhostAgent>) -> (ok: bool)
    ensures
        ok == ghosts_in_world(ghosts@),
{
    let mut i: usize = 0;
    while i < ghosts.len()
        invariant
            i <= ghosts.len(),
            forall|j: int| 0 <= j < i ==> (#[trigger] ghosts@[j]).position.in_world(),
        decreases ghosts.len() - i,
    {
        if !ghosts[i].position.is_in_world() {
            return false;
        }
        i += 1;
    }
    true
}

/// The scene that the ghosts find in a tick with the given player, game
/// and maze.
pub open spec fn scene_of(
    player: Position,
    player_movement_helper: MovementHelper,
    game_data: GameData,
    player_data: PlayerData,
    walls: Seq<TileCollider>,
    spawn_points: Seq<GhostSpawn>,
    pellets: Map<usize, Position>,
) -> Scene {
    Scene {
        walls,
        spawn_points,
        pellets,
        player_pos: player,
        player_heading: player_movement_helper.heading(),
        scatter_mode: player_data.energized(),
        transitioning: game_data.transitioning,
    }
}

impl GhostAgent {
    /// The ghost has its turn in the pass of the flankers, or in the pass of
    /// the others. Inky is the one flanker.
    pub open spec fn takes_turn(self, flankers: bool) -> bool {
        (self.personality == GhostPersonality::Inky) == flankers
    }

    /// The ghost is Pinky on the move: where it stands after its turn is
    /// what Inky flanks from.
    pub open spec fn reports_position(self, scene: Scene) -> bool {
        &&& self.personality == GhostPersonality::Pinky
        &&& self.on_the_move()
        &&& !scene.transitioning
    }
}

/// The tick after the first `n` ghosts have been looked at in one pass.
/// A ghost whose turn it is gets it, in the order of the sequence; Pinky
/// leaves its new position behind for Inky. The first ghost that fails
/// stops the tick: it and those after it stay as they were.
pub open spec fn pass(start: Round, scene: Scene, flankers: bool, n: nat) -> Round
    decreases n,
{
    if n == 0 {
        start
    } else {
        let before = pass(start, scene, flankers, (n - 1) as nat);
        let i = n - 1;
        if before.error is Some || !before.ghosts[i].takes_turn(flankers) {
            before
        } else {
            match before.ghosts[i].evaluated(scene, before.ambusher) {
                Ok(after) => Round {
                    ghosts: before.ghosts.update(i, after),
                    ambusher: if before.ghosts[i].reports_position(scene) {
                        Some(after.position)
                    } else {
                        before.ambusher
                    },
                    error: None,
                },
                Err(e) => Round { error: Some(e), ..before },
            }
        }
    }
}

/// The ghosts after one tick. Blinky, Pinky and Clyde have their turns
/// first, in the order of the sequence, and Inky after them, so that it
/// sees where Pinky went in this very tick.
pub open spec fn ticked(ghosts: Seq<GhostAgent>, scene: Scene) -> Round {
    let others = pass(Round { ghosts, ambusher: None, error: None }, scene, false, ghosts.len());
    pass(others, scene, true, ghosts.len())
}

/// What a tick returns: the error that stopped it, or nothing.
pub open spec fn outcome(round: Round) -> Result<(), TickError> {
    match round.error {
        Some(e) => Err(e),
        None => Ok(()),
    }
}

/// Once a pass has failed it goes no further.
pub proof fn lemma_pass_stops_at_error(start: Round, scene: Scene, flankers: bool, n: nat, m: nat)
    requires
        n <= m,
        pass(start, scene, flankers, n).error is Some,
    ensures
        pass(start, scene, flankers, m) == pass(start, scene, flankers, n),
    decreases m - n,
{
    if n < m {
        lemma_pass_stops_at_error(start, scene, flankers, n, (m - 1) as nat);
    }
}

/// A pass keeps the number of ghosts and what each of them is, leaves every
/// ghost alone whose turn it is not, and does not touch the ghosts it has
/// not come to.
pub proof fn lemma_pass_keeps_the_others(start: Round, scene: Scene, flankers: bool, n: nat)
    requires
        n <= start.ghosts.len(),
    ensures
        pass(start, scene, flankers, n).ghosts.len() == start.ghosts.len(),
        forall|j: int|
            0 <= j < start.ghosts.len() ==> (#[trigger] pass(
                start,
                scene,
                flankers,
                n,
            ).ghosts[j]).personality == start.ghosts[j].personality,
        forall|j: int|
            0 <= j < start.ghosts.len() && !start.ghosts[j].takes_turn(flankers) ==> #[trigger] pass(
                start,
                scene,
                flankers,
                n,
            ).ghosts[j] == start.ghosts[j],
        forall|j: int|
            n <= j < start.ghosts.len() ==> #[trigger] pass(start, scene, flankers, n).ghosts[j]
                == start.ghosts[j],
    decreases n,
{
    if n > 0 {
        lemma_pass_keeps_the_others(start, scene, flankers, (n - 1) as nat);
    }
}

/// Gives every ghost whose turn it is in this pass its turn, in the order
/// of the sequence, and returns where Pinky moved to and whether the pass
/// came through.
fn run_pass(
    me: &mut Vec<GhostAgent>,
    flankers: bool,
    ambusher: Option<Position>,
    player: Position,
    player_movement_helper: &MovementHelper,
    game_data: &GameData,
    player_data: &PlayerData,
    walls: &Vec<TileCollider>,
    spawn_points: &Vec<GhostSpawn>,
    power_pellets_data: &PowerPellets,
) -> (r: (Option<Position>, Result<(), TickError>))
    requires
        forall|i: int|
            0 <= i < old(me)@.len() && old(me)@[i].takes_turn(flankers) ==> (#[trigger] old(
                me,
            )@[i]).position.in_world(),
        ghosts_near_world(old(me)@),
        ambusher matches Some(p) ==> p.near_world(),
        player.in_world(),
        tiles_in_world(walls@),
        spawns_in_world(spawn_points@),
    ensures
        ({
            let scene = scene_of(
                player,
                *player_movement_helper,
                *game_data,
                *player_data,
                walls@,
                spawn_points@,
                power_pellets_data@,
            );
            let round = pass(
                Round { ghosts: old(me)@, ambusher, error: None },
                scene,
                flankers,
                old(me)@.len(),
            );
            &&& final(me)@ == round.ghosts
            &&& r.0 == round.ambusher
            &&& r.1 == outcome(round)
        }),
        r.0 matches Some(p) ==> p.near_world(),
        ghosts_near_world(final(me)@),
{
    let ghost scene = scene_of(
        player,
        *player_movement_helper,
        *game_data,
        *player_data,
        walls@,
        spawn_points@,
        power_pellets_data@,
    );
    let ghost start = Round { ghosts: me@, ambusher, error: None };
    let player_heading = player_movement_helper.current();
    let scatter_mode = player_data.is_energized();
    let count = me.len();
    let mut slot = ambusher;
    let mut i: usize = 0;
    while i < count
        invariant
            i <= count,
            count == me@.len(),
            count == old(me)@.len(),
            start == (Round { ghosts: old(me)@, ambusher, error: None }),
            forall|j: int|
                0 <= j < count && start.ghosts[j].takes_turn(flankers) ==> (
                #[trigger] start.ghosts[j]).position.in_world(),
            forall|j: int| i <= j < count ==> #[trigger] me@[j] == start.ghosts[j],
            ghosts_near_world(me@),
            me@ =~= pass(start, scene, flankers, i as nat).ghosts,
            slot == pass(start, scene, flankers, i as nat).ambusher,
            pass(start, scene, flankers, i as nat).error is None,
            slot matches Some(p) ==> p.near_world(),
            player.in_world(),
            tiles_in_world(walls@),
            spawns_in_world(spawn_points@),
            player_heading == player_movement_helper.heading(),
            scatter_mode == player_data.energized(),
            scene == scene_of(
                player,
                *player_movement_helper,
                *game_data,
                *player_data,
                walls@,
                spawn_points@,
                power_pellets_data@,
            ),
        decreases count - i,
    {
        let mut current = me[i];
        let ghost before = pass(start, scene, flankers, i as nat);
        assert(current == before.ghosts[i as int]);
        assert(current == start.ghosts[i as int]);
        let is_flanker = matches!(current.personality, GhostPersonality::Inky);
        if is_flanker == flankers {
            let reports = matches!(current.personality, GhostPersonality::Pinky) && matches!(
                current.state,
                EntityState::Alive
            ) && current.has_ai && !game_data.transitioning;
            match current.evaluate(
                player,
                player_heading,
                scatter_mode,
                game_data.transitioning,
                walls,
                spawn_points,
                power_pellets_data,
                slot,
            ) {
                Ok(()) => {
                    me.set(i, current);
                    if reports {
                        slot = Some(current.position);
                    }
                },
                Err(e) => {
                    proof {
                        lemma_pass_stops_at_error(
                            start,
                            scene,
                            flankers,
                            (i + 1) as nat,
                            count as nat,
                        );
                    }
                    return (slot, Err(e));
                },
            }
        }
        i += 1;
    }
    (slot, Ok(()))
}

impl GhostAgent {
    /// One tick of all the ghosts. Blinky, Pinky and Clyde have their turns
    /// first, in the order of `me`, and Inky after them. The first ghost
    /// that cannot have its turn stops the tick with its error: the ghosts
    /// before it keep what their turns gave them, and it and those after it
    /// stay as they were.
    pub fn tick(
        me: &mut Vec<GhostAgent>,
        player: Position,
        player_movement_helper: &MovementHelper,
        game_data: &GameData,
        player_data: &PlayerData,
        walls: &Vec<TileCollider>,
        spawn_points: &Vec<GhostSpawn>,
        power_pellets_data: &PowerPellets,
    ) -> (r: Result<(), TickError>)
        requires
            ghosts_in_world(old(me)@),
            player.in_world(),
            tiles_in_world(walls@),
            spawns_in_world(spawn_points@),
        ensures
            ({
                let round = ticked(
                    old(me)@,
                    scene_of(
                        player,
                        *player_movement_helper,
                        *game_data,
                        *player_data,
                        walls@,
                        spawn_points@,
                        power_pellets_data@,
                    ),
                );
                &&& final(me)@ == round.ghosts
                &&& r == outcome(round)
            }),
            ghosts_near_world(final(me)@),
    {
        let ghost scene = scene_of(
            player,
            *player_movement_helper,
            *game_data,
            *player_data,
            walls@,
            spawn_points@,
            power_pellets_data@,
        );
        let ghost start = Round { ghosts: me@, ambusher: None, error: None };
        proof {
            lemma_pass_keeps_the_others(start, scene, false, me@.len());
        }
        let (pinky_pos, others) = run_pass(
            me,
            false,
            None,
            player,
            player_movement_helper,
            game_data,
            player_data,
            walls,
            spawn_points,
            power_pellets_data,
        );
        let ghost first = pass(start, scene, false, start.ghosts.len());
        match others {
            Ok(()) => {
                assert(first =~= (Round { ghosts: me@, ambusher: pinky_pos, error: None }));
                let (_, flankers) = run_pass(
                    me,
                    true,
                    pinky_pos,
                    player,
                    player_movement_helper,
                    game_data,
                    player_data,
                    walls,
                    spawn_points,
                    power_pellets_data,
                );
                flankers
            },
            Err(e) => {
                proof {
                    lemma_pass_stops_at_error(first, scene, true, 0, start.ghosts.len());
                }
                Err(e)
            },
        }
    }
}

/// The ghosts, the player and the maze all lie in the world, as a tick
/// needs them to.
pub open spec fn tick_in_world(
    ghosts: Seq<GhostAgent>,
    player: Position,
    walls: Seq<TileCollider>,
    spawn_points: Seq<GhostSpawn>,
) -> bool {
    &&& ghosts_in_world(ghosts)
    &&& player.in_world()
    &&& tiles_in_world(walls)
    &&& spawns_in_world(spawn_points)
}

impl GhostAgent {
    /// One tick of all the ghosts, for a caller that cannot tell whether
    /// everything lies in the world. Where it does, the ghosts have their
    /// tick and its outcome is returned. Where it does not, nothing is
    /// returned and the ghosts stay as they were.
    pub fn try_tick(
        me: &mut Vec<GhostAgent>,
        player: Position,
        player_movement_helper: &MovementHelper,
        game_data: &GameData,
        player_data: &PlayerData,
        walls: &Vec<TileCollider>,
        spawn_points: &Vec<GhostSpawn>,
        power_pellets_data: &PowerPellets,
    ) -> (r: Option<Result<(), TickError>>)
        ensures
            r is Some <==> tick_in_world(old(me)@, player, walls@, spawn_points@),
            match r {
                Some(result) => {
                    let round = ticked(
                        old(me)@,
                        scene_of(
                            player,
                            *player_movement_helper,
                            *game_data,
                            *player_data,
                            walls@,
                            spawn_points@,
                            power_pellets_data@,
                        ),
                    );
                    &&& final(me)@ == round.ghosts
                    &&& result == outcome(round)
                },
                None => final(me)@ == old(me)@,
            },
    {
        if check_ghosts_in_world(me) && player.is_in_world() && check_tiles_in_world(walls)
            && check_spawns_in_world(spawn_points) {
            Some(
                GhostAgent::tick(
                    me,
                    player,
                    player_movement_helper,
                    game_data,
                    player_data,
                    walls,
                    spawn_points,
                    power_pellets_data,
                ),
            )
        } else {
            None
        }
    }
}

/// A pass in which no ghost on the move is Pinky leaves no position behind
/// for Inky: what the pass started with stays.
pub proof fn lemma_pass_without_pinky_reports_nothing(
    start: Round,
    scene: Scene,
    flankers: bool,
    n: nat,
)
    requires
        n <= start.ghosts.len(),
        forall|j: int|
            0 <= j < n && start.ghosts[j].takes_turn(flankers) ==> !(
            #[trigger] start.ghosts[j]).reports_position(scene),
    ensures
        pass(start, scene, flankers, n).ambusher == start.ambusher,
    decreases n,
{
    if n > 0 {
        lemma_pass_without_pinky_reports_nothing(start, scene, flankers, (n - 1) as nat);
        lemma_pass_keeps_the_others(start, scene, flankers, (n - 1) as nat);
    }
}

/// In the pass of the flankers that starts without a position of Pinky, an
/// active Inky does not move: it keeps its place, its direction and its
/// stuck counter.
pub proof fn lemma_flankers_stand_without_ambusher(start: Round, scene: Scene, n: nat)
    requires
        n <= start.ghosts.len(),
        start.ambusher is None,
    ensures
        pass(start, scene, true, n).ambusher is None,
        forall|j: int|
            0 <= j < start.ghosts.len() && start.ghosts[j].personality == GhostPersonality::Inky
                && start.ghosts[j].state == EntityState::Alive ==> {
                let after = #[trigger] pass(start, scene, true, n).ghosts[j];
                &&& after.position == start.ghosts[j].position
                &&& after.helper == start.ghosts[j].helper
                &&& after.stuck_ticks == start.ghosts[j].stuck_ticks
            },
    decreases n,
{
    if n > 0 {
        lemma_flankers_stand_without_ambusher(start, scene, (n - 1) as nat);
        lemma_pass_keeps_the_others(start, scene, true, (n - 1) as nat);
        lemma_pass_keeps_the_others(start, scene, true, n);
    }
}

/// Inky never moves in a tick in which Pinky is not on the move. Where no
/// Pinky is active with its AI, or the maze is between two levels, every
/// active Inky has after the tick the place, the direction and the stuck
/// counter that it had before.
pub proof fn lemma_flanker_waits_for_ambusher(ghosts: Seq<GhostAgent>, scene: Scene, i: int)
    requires
        0 <= i < ghosts.len(),
        ghosts[i].personality == GhostPersonality::Inky,
        ghosts[i].state == EntityState::Alive,
        forall|j: int| 0 <= j < ghosts.len() ==> !(#[trigger] ghosts[j]).reports_position(scene),
    ensures
        ticked(ghosts, scene).ghosts[i].position == ghosts[i].position,
        ticked(ghosts, scene).ghosts[i].helper == ghosts[i].helper,
        ticked(ghosts, scene).ghosts[i].stuck_ticks == ghosts[i].stuck_ticks,
{
    let start = Round { ghosts, ambusher: None, error: None };
    let others = pass(start, scene, false, ghosts.len());
    lemma_pass_without_pinky_reports_nothing(start, scene, false, ghosts.len());
    lemma_pass_keeps_the_others(start, scene, false, ghosts.len());
    assert(others.ghosts[i] == ghosts[i]);
    lemma_flankers_stand_without_ambusher(others, scene, ghosts.len());
}

/// Inky has its turn after all the others: the first pass of a tick leaves
/// every Inky as it was, and the second pass leaves every other ghost as
/// the first pass left it.
pub proof fn lemma_flankers_come_last(ghosts: Seq<GhostAgent>, scene: Scene, i: int)
    requires
        0 <= i < ghosts.len(),
    ensures
        ({
            let others = pass(
                Round { ghosts, ambusher: None, error: None },
                scene,
                false,
                ghosts.len(),
            );
            &&& ghosts[i].personality == GhostPersonality::Inky ==> others.ghosts[i] == ghosts[i]
            &&& ghosts[i].personality != GhostPersonality::Inky ==> ticked(ghosts, scene).ghosts[i]
                == others.ghosts[i]
            &&& ticked(ghosts, scene).ghosts.len() == ghosts.len()
        }),
{
    let start = Round { ghosts, ambusher: None, error: None };
    let others = pass(start, scene, false, ghosts.len());
    lemma_pass_keeps_the_others(start, scene, false, ghosts.len());
    lemma_pass_keeps_the_others(others, scene, true, ghosts.len());
}

/// A pass that fails has failed at one ghost: up to that ghost the pass
/// went without error, the turn of that ghost gave the error, and the
/// ghosts are left as they were when its turn came.
pub proof fn lemma_pass_fails_at_one_ghost(start: Round, scene: Scene, flankers: bool, n: nat)
    requires
        n <= start.ghosts.len(),
        start.error is None,
        pass(start, scene, flankers, n).error is Some,
    ensures
        exists|k: nat|
            {
                &&& k < n
                &&& (#[trigger] pass(start, scene, flankers, k)).error is None
                &&& pass(start, scene, flankers, k).ghosts[k as int].takes_turn(flankers)
                &&& pass(start, scene, flankers, k).ghosts[k as int] == start.ghosts[k as int]
                &&& match pass(start, scene, flankers, k).ghosts[k as int].evaluated(
                    scene,
                    pass(start, scene, flankers, k).ambusher,
                ) {
                    Ok(_) => false,
                    Err(e) => pass(start, scene, flankers, n).error == Some(e),
                }
                &&& pass(start, scene, flankers, n).ghosts == pass(start, scene, flankers, k).ghosts
            },
    decreases n,
{
    let before = pass(start, scene, flankers, (n - 1) as nat);
    if before.error is Some {
        lemma_pass_fails_at_one_ghost(start, scene, flankers, (n - 1) as nat);
        let k = choose|k: nat|
            {
                &&& k < n - 1
                &&& (#[trigger] pass(start, scene, flankers, k)).error is None
                &&& pass(start, scene, flankers, k).ghosts[k as int].takes_turn(flankers)
                &&& pass(start, scene, flankers, k).ghosts[k as int] == start.ghosts[k as int]
                &&& match pass(start, scene, flankers, k).ghosts[k as int].evaluated(
                    scene,
                    pass(start, scene, flankers, k).ambusher,
                ) {
                    Ok(_) => false,
                    Err(e) => before.error == Some(e),
                }
                &&& before.ghosts == pass(start, scene, flankers, k).ghosts
            };
        assert(pass(start, scene, flankers, k).error is None);
    } else {
        lemma_pass_keeps_the_others(start, scene, flankers, (n - 1) as nat);
        assert(pass(start, scene, flankers, (n - 1) as nat).error is None);
    }
}

/// Between two levels a pass that comes through leaves every ghost
/// spawning that had its turn in it.
pub proof fn lemma_transition_pass_sends_to_spawning(
    start: Round,
    scene: Scene,
    flankers: bool,
    n: nat,
)
    requires
        scene.transitioning,
        n <= start.ghosts.len(),
        pass(start, scene, flankers, n).error is None,
    ensures
        forall|j: int|
            0 <= j < n && start.ghosts[j].takes_turn(flankers) ==> (#[trigger] pass(
                start,
                scene,
                flankers,
                n,
            ).ghosts[j]).state == EntityState::Created,
    decreases n,
{
    if n > 0 {
        let before = pass(start, scene, flankers, (n - 1) as nat);
        lemma_pass_keeps_the_others(start, scene, flankers, (n - 1) as nat);
        if before.error is None {
            lemma_transition_pass_sends_to_spawning(start, scene, flankers, (n - 1) as nat);
        }
    }
}

/// Between two levels a tick that comes through leaves every ghost
/// spawning, whatever state it was in.
pub proof fn lemma_transition_tick_sends_all_to_spawning(ghosts: Seq<GhostAgent>, scene: Scene)
    requires
        scene.transitioning,
        ticked(ghosts, scene).error is None,
    ensures
        ticked(ghosts, scene).ghosts.len() == ghosts.len(),
        forall|j: int|
            0 <= j < ghosts.len() ==> (#[trigger] ticked(ghosts, scene).ghosts[j]).state
                == EntityState::Created,
{
    let start = Round { ghosts, ambusher: None, error: None };
    let others = pass(start, scene, false, ghosts.len());
    if others.error is Some {
        lemma_pass_stops_at_error(others, scene, true, 0, ghosts.len());
    }
    lemma_pass_keeps_the_others(start, scene, false, ghosts.len());
    lemma_transition_pass_sends_to_spawning(start, scene, false, ghosts.len());
    lemma_pass_keeps_the_others(others, scene, true, ghosts.len());
    lemma_transition_pass_sends_to_spawning(others, scene, true, ghosts.len());
    assert forall|j: int| 0 <= j < ghosts.len() implies (#[trigger] ticked(
        ghosts,
        scene,
    ).ghosts[j]).state == EntityState::Created by {
        if ghosts[j].takes_turn(true) {
            assert(others.ghosts[j].takes_turn(true));
        } else {
            assert(ghosts[j].takes_turn(false));
            assert(!others.ghosts[j].takes_turn(true));
        }
    }
}

} // verus!
