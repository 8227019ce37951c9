//! Food: what the player eats, and what happens when none is left.

use vstd::prelude::*;
use crate::game::{
    EntityState, MovementHelper, Position, ENERGIZED_MAX_LENGTH, PAC_DOT_WORTH,
    POWER_PELLET_WORTH,
};
use crate::game::enemy::GhostAgent;
use crate::game::map::{ConsumableType, Food, default_map_origin, map_origin};
use crate::game::player::{GameData, MissingFeature, PlayerData};
use crate::game::util::{boxes_overlap, collide, get_real_pos, real_pos};

verus! {

/// Edge of the square with which the player reaches for food: one tile.
pub const PLAYER_REACH: i64 = 2500;

/// Edge of the square within which food is reached: twenty tiles.
pub const FOOD_FOOTPRINT: i64 = 50000;

/// Every piece of food lies in the world.
pub open spec fn food_in_world(food: Seq<Food>) -> bool {
    forall|i: int| 0 <= i < food.len() ==> (#[trigger] food[i]).position.in_world()
}

/// Tells whether every piece of food lies in the world.
pub fn check_food_in_world(food: &Vec<Food>) -> (ok: bool)
    ensures
        ok == food_in_world(food@),
{
    let mut i: usize = 0;
    while i < food.len()
        invariant
            i <= food.len(),
            forall|j: int| 0 <= j < i ==> (#[trigger] food@[j]).position.in_world(),
        decreases food.len() - i,
    {
        if !food[i].position.is_in_world() {
            return false;
        }
        i += 1;
    }
    true
}

/// Points for a piece of food.
pub open spec fn worth(kind: ConsumableType) -> nat {
    match kind {
        ConsumableType::PowerPellet => POWER_PELLET_WORTH as nat,
        _ => PAC_DOT_WORTH as nat,
    }
}

/// The player at `player_pos` eats the piece of food: it is shown, not yet
/// eaten, and within reach.
pub open spec fn eats(item: Food, player_pos: Position) -> bool {
    &&& item.visible
    &&& !item.is_eaten
    &&& boxes_overlap(
        player_pos,
        PLAYER_REACH as int,
        real_pos(item.position, default_map_origin()),
        FOOD_FOOTPRINT as int,
    )
}

/// How far a meal has come: the food and the player as they are now,
/// whether the meal was broken off, and what was missing for it.
pub struct Meal {
    pub food: Seq<Food>,
    pub data: PlayerData,
    pub broken_off: bool,
    pub error: Option<MissingFeature>,
}

/// The meal after the first `n` pieces of food have been looked at. Fruit
/// stops the meal, for it has no behaviour yet. Between two levels the
/// meal is broken off at the first piece that is no fruit. A piece that
/// the player eats is eaten and hidden and adds its worth to the score; a
/// power pellet energizes the player as well.
pub open spec fn meal(start: Meal, player_pos: Position, transitioning: bool, n: nat) -> Meal
    decreases n,
{
    if n == 0 {
        start
    } else {
        let before = meal(start, player_pos, transitioning, (n - 1) as nat);
        let i = n - 1;
        let item = before.food[i];
        if before.error is Some || before.broken_off {
            before
        } else if item.kind == ConsumableType::Fruit {
            Meal { error: Some(MissingFeature::Fruit), ..before }
        } else if transitioning {
            Meal { broken_off: true, ..before }
        } else if !eats(item, player_pos) {
            before
        } else {
            Meal {
                food: before.food.update(i, Food { is_eaten: true, visible: false, ..item }),
                data: PlayerData {
                    score: (before.data.score + worth(item.kind)) as usize,
                    state: if item.kind == ConsumableType::PowerPellet {
                        EntityState::Energized(ENERGIZED_MAX_LENGTH)
                    } else {
                        before.data.state
                    },
                    ..before.data
                },
                ..before
            }
        }
    }
}

/// A meal keeps the number of pieces, leaves alone the pieces it has not
/// come to, and adds at most the worth of a power pellet to the score for
/// each piece it has come to.
pub proof fn lemma_meal_is_bounded(start: Meal, player_pos: Position, transitioning: bool, n: nat)
    requires
        n <= start.food.len(),
        start.data.score + POWER_PELLET_WORTH * start.food.len() <= usize::MAX,
    ensures
        meal(start, player_pos, transitioning, n).food.len() == start.food.len(),
        forall|j: int|
            n <= j < start.food.len() ==> #[trigger] meal(start, player_pos, transitioning, n).food[j]
                == start.food[j],
        forall|j: int|
            0 <= j < start.food.len() ==> (#[trigger] meal(
                start,
                player_pos,
                transitioning,
                n,
            ).food[j]).position == start.food[j].position,
        start.data.score <= meal(start, player_pos, transitioning, n).data.score
            <= start.data.score + POWER_PELLET_WORTH * n,
    decreases n,
{
    if n > 0 {
        lemma_meal_is_bounded(start, player_pos, transitioning, (n - 1) as nat);
    }
}

/// Once a meal has stopped it goes no further.
pub proof fn lemma_meal_stays_stopped(
    start: Meal,
    player_pos: Position,
    transitioning: bool,
    n: nat,
    m: nat,
)
    requires
        n <= m,
        meal(start, player_pos, transitioning, n).error is Some || meal(
            start,
            player_pos,
            transitioning,
            n,
        ).broken_off,
    ensures
        meal(start, player_pos, transitioning, m) == meal(start, player_pos, transitioning, n),
    decreases m - n,
{
    if n < m {
        lemma_meal_stays_stopped(start, player_pos, transitioning, n, (m - 1) as nat);
    }
}

/// The rules of food and of the change of levels.
pub struct FoodSystem;

impl FoodSystem {
    /// Lets the player eat what it has reached. The pieces are looked at in
    /// their order; where fruit stops the meal, what was eaten before
    /// stays eaten.
    pub fn check_food(
        food: &mut Vec<Food>,
        player_pos: Position,
        game_data: &GameData,
        player_data: &mut PlayerData,
    ) -> (r: Result<(), MissingFeature>)
        requires
            food_in_world(old(food)@),
            player_pos.in_reach(),
            old(player_data).score + POWER_PELLET_WORTH * old(food)@.len() <= usize::MAX,
        ensures
            ({
                let done = meal(
                    Meal {
                        food: old(food)@,
                        data: *old(player_data),
                        broken_off: false,
                        error: None,
                    },
                    player_pos,
                    game_data.transitioning,
                    old(food)@.len(),
                );
                &&& final(food)@ == done.food
                &&& *final(player_data) == done.data
                &&& r == match done.error {
                    Some(e) => Err::<(), MissingFeature>(e),
                    None => Ok(()),
                }
            }),
    {
        let ghost start = Meal {
            food: food@,
            data: *player_data,
            broken_off: false,
            error: None,
        };
        let count = food.len();
        let mut i: usize = 0;
        while i < count
            invariant
                i <= count,
                count == food@.len(),
                count == old(food)@.len(),
                start == (Meal {
                    food: old(food)@,
                    data: *old(player_data),
                    broken_off: false,
                    error: None,
                }),
                food_in_world(old(food)@),
                player_pos.in_reach(),
                start.data.score + POWER_PELLET_WORTH * count <= usize::MAX,
                food@ =~= meal(start, player_pos, game_data.transitioning, i as nat).food,
                *player_data == meal(start, player_pos, game_data.transitioning, i as nat).data,
                meal(start, player_pos, game_data.transitioning, i as nat).error is None,
                !meal(start, player_pos, game_data.transitioning, i as nat).broken_off,
            decreases count - i,
        {
            proof {
                lemma_meal_is_bounded(start, player_pos, game_data.transitioning, i as nat);
            }
            let item = food[i];
            match item.kind {
                ConsumableType::Fruit => {
                    proof {
                        lemma_meal_stays_stopped(
                            start,
                            player_pos,
                            game_data.transitioning,
                            (i + 1) as nat,
                            count as nat,
                        );
                    }
                    return Err(MissingFeature::Fruit);
                },
                _ => {
                    if game_data.transitioning {
                        proof {
                            lemma_meal_stays_stopped(
                                start,
                                player_pos,
                                game_data.transitioning,
                                (i + 1) as nat,
                                count as nat,
                            );
                        }
                        return Ok(());
                    }
                    if item.visible && !item.is_eaten && collide(
                        player_pos,
                        PLAYER_REACH,
                        get_real_pos(item.position, map_origin()),
                        FOOD_FOOTPRINT,
                    ) {
                        let is_powerpellet = matches!(item.kind, ConsumableType::PowerPellet);
                        let gain: usize = if is_powerpellet {
                            POWER_PELLET_WORTH as usize
                        } else {
                            PAC_DOT_WORTH as usize
                        };
                        assert(POWER_PELLET_WORTH * i <= POWER_PELLET_WORTH * count) by (nonlinear_arith)
                            requires
                                i <= count,
                        ;
                        player_data.score = player_data.score + gain;
                        food.set(i, Food { is_eaten: true, visible: false, ..item });
                        if is_powerpellet {
                            player_data.state = EntityState::Energized(ENERGIZED_MAX_LENGTH);
                        }
                    }
                },
            }
            i += 1;
        }
        Ok(())
    }
}

/// The piece of food is still to be eaten: it is not both hidden and
/// eaten.
pub open spec fn is_active(item: Food) -> bool {
    item.visible || !item.is_eaten
}

/// Some food is still to be eaten.
pub open spec fn food_left(food: Seq<Food>) -> bool {
    exists|i: int| 0 <= i < food.len() && is_active(#[trigger] food[i])
}

/// Every ghost is spawning.
pub open spec fn all_spawning(ghosts: Seq<GhostAgent>) -> bool {
    forall|i: int| 0 <= i < ghosts.len() ==> (#[trigger] ghosts[i]).state == EntityState::Created
}

/// The ghosts, each sent to spawning.
pub open spec fn sent_spawning(ghosts: Seq<GhostAgent>) -> Seq<GhostAgent> {
    Seq::new(ghosts.len(), |i: int| GhostAgent { state: EntityState::Created, ..ghosts[i] })
}

/// The food, each piece shown and not eaten.
pub open spec fn refreshed(food: Seq<Food>) -> Seq<Food> {
    Seq::new(food.len(), |i: int| Food { is_eaten: false, visible: true, ..food[i] })
}

/// What the change of levels works on.
pub struct LevelState {
    pub food: Seq<Food>,
    pub player: PlayerData,
    pub game: GameData,
    pub helper: MovementHelper,
    pub ghosts: Seq<GhostAgent>,
}

/// The game after the check for a change of levels.
///
/// Between two levels every ghost is sent to spawning, and the wait is
/// over once the check finds them all spawning. When no food is left and
/// no wait is on, the next level starts: the food is put back, the player
/// is new and stands without a direction, and a wait begins unless all
/// ghosts are spawning.
pub open spec fn level_checked(before: LevelState) -> LevelState {
    let waiting = before.game.transitioning && !all_spawning(before.ghosts);
    let ghosts = if before.game.transitioning {
        sent_spawning(before.ghosts)
    } else {
        before.ghosts
    };
    if !food_left(before.food) && !waiting {
        LevelState {
            food: refreshed(before.food),
            player: PlayerData { state: EntityState::Created, ..before.player },
            game: GameData {
                level: (before.game.level + 1) as usize,
                transitioning: !all_spawning(ghosts),
            },
            helper: MovementHelper { direction: None },
            ghosts,
        }
    } else {
        LevelState { game: GameData { transitioning: waiting, ..before.game }, ghosts, ..before }
    }
}

/// Tells whether some food is still to be eaten.
pub fn any_food_left(food: &Vec<Food>) -> (left: bool)
    ensures
        left == food_left(food@),
{
    let mut i: usize = 0;
    while i < food.len()
        invariant
            i <= food.len(),
            forall|j: int| 0 <= j < i ==> !is_active(#[trigger] food@[j]),
        decreases food.len() - i,
    {
        if food[i].visible || !food[i].is_eaten {
            return true;
        }
        i += 1;
    }
    false
}

/// Tells whether every ghost is spawning.
pub fn all_ghosts_ready(ghosts: &Vec<GhostAgent>) -> (ready: bool)
    ensures
        ready == all_spawning(ghosts@),
{
    let mut i: usize = 0;
    while i < ghosts.len()
        invariant
            i <= ghosts.len(),
            forall|j: int| 0 <= j < i ==> (#[trigger] ghosts@[j]).state == EntityState::Created,
        decreases ghosts.len() - i,
    {
        if !matches!(ghosts[i].state, EntityState::Created) {
            return false;
        }
        i += 1;
    }
    true
}

impl FoodSystem {
    /// Makes the game change level if all food is gone, and sees the
    /// ghosts back to spawning while it does.
    pub fn level_checker(
        food: &mut Vec<Food>,
        player_data: &mut PlayerData,
        game_data: &mut GameData,
        helper: &mut MovementHelper,
        ghosts: &mut Vec<GhostAgent>,
    )
        requires
            old(game_data).level < usize::MAX,
        ensures
            ({
                let after = level_checked(
                    LevelState {
                        food: old(food)@,
                        player: *old(player_data),
                        game: *old(game_data),
                        helper: *old(helper),
                        ghosts: old(ghosts)@,
                    },
                );
                &&& final(food)@ == after.food
                &&& *final(player_data) == after.player
                &&& *final(game_data) == after.game
                &&& *final(helper) == after.helper
                &&& final(ghosts)@ == after.ghosts
            }),
    {
        let active_food = any_food_left(food);
        if game_data.transitioning {
            let ready = all_ghosts_ready(ghosts);
            let count = ghosts.len();
            let mut i: usize = 0;
            while i < count
                invariant
                    i <= count,
                    count == ghosts@.len(),
                    count == old(ghosts)@.len(),
                    forall|j: int|
                        0 <= j < i ==> #[trigger] ghosts@[j] == sent_spawning(old(ghosts)@)[j],
                    forall|j: int| i <= j < count ==> #[trigger] ghosts@[j] == old(ghosts)@[j],
                decreases count - i,
            {
                let mut current = ghosts[i];
                current.state = EntityState::Created;
                ghosts.set(i, current);
                i += 1;
            }
            assert(ghosts@ =~= sent_spawning(old(ghosts)@));
            if ready {
                game_data.transitioning = false;
            }
        }
        if !active_food && !game_data.transitioning {
            game_data.level += 1;
            player_data.state = EntityState::Created;
            let count = food.len();
            let mut i: usize = 0;
            while i < count
                invariant
                    i <= count,
                    count == food@.len(),
                    count == old(food)@.len(),
                    forall|j: int| 0 <= j < i ==> #[trigger] food@[j] == refreshed(old(food)@)[j],
                    forall|j: int| i <= j < count ==> #[trigger] food@[j] == old(food)@[j],
                decreases count - i,
            {
                let mut item = food[i];
                item.is_eaten = false;
                item.visible = true;
                food.set(i, item);
                i += 1;
            }
            assert(food@ =~= refreshed(old(food)@));
            helper.direction = None;
            game_data.transitioning = !all_ghosts_ready(ghosts);
        }
    }
}

/// The wait between two levels sends every ghost to spawning, and it is
/// over with the check that finds them all spawning while food is left.
pub proof fn lemma_wait_ends_when_all_spawn(before: LevelState)
    requires
        before.game.transitioning,
    ensures
        all_spawning(level_checked(before).ghosts),
        all_spawning(before.ghosts) && food_left(before.food) ==> !level_checked(
            before,
        ).game.transitioning,
        !all_spawning(before.ghosts) ==> level_checked(before).game.transitioning
            && level_checked(before).game.level == before.game.level,
{
}

/// A level ends only when no food is left, and then the next one starts
/// with all food back in place and a new player.
pub proof fn lemma_level_ends_without_food(before: LevelState)
    requires
        before.game.level < usize::MAX,
    ensures
        level_checked(before).game.level != before.game.level ==> {
            &&& !food_left(before.food)
            &&& level_checked(before).game.level == before.game.level + 1
            &&& level_checked(before).player.state == EntityState::Created
            &&& level_checked(before).helper.direction is None
            &&& forall|i: int|
                0 <= i < before.food.len() ==> is_active(#[trigger] level_checked(before).food[i])
        },
        food_left(before.food) ==> level_checked(before).food == before.food && level_checked(
            before,
        ).player == before.player && level_checked(before).helper == before.helper,
{
}

} // verus!
