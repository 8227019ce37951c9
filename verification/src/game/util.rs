//! Collision against the maze's tiles, distances and step sizes.

use vstd::prelude::*;
use crate::game::{Position, CurrentDirection, TILE_SIZE, STEP_SIZE, GHOST_DEBUFF, REACH_LIMIT, WORLD_LIMIT};
use crate::game::map::{TileCollider, tiles_in_world, default_map_origin, map_origin};
use crate::game::table::{
    PositionTable, entries_in_world, lookup, no_entries, table_get, table_insert, table_new,
};

verus! {

/// Squared distance between two points, in squared fixed-point steps.
pub open spec fn dist2(a: Position, b: Position) -> int {
    (a.x - b.x) * (a.x - b.x) + (a.y - b.y) * (a.y - b.y)
}

/// A position moved by the map's origin.
pub open spec fn real_pos(pos: Position, origin: Position) -> Position {
    pos.offset(origin.x as int, origin.y as int)
}

/// Moves a position given relative to the map into the world, by adding the
/// map's origin.
pub fn get_real_pos(pos: Position, origin: Position) -> (r: Position)
    requires
        pos.in_world(),
        origin.in_world(),
    ensures
        r == real_pos(pos, origin),
        r.x == pos.x + origin.x,
        r.y == pos.y + origin.y,
        r.within(2 * WORLD_LIMIT),
{
    Position { x: pos.x + origin.x, y: pos.y + origin.y }
}

/// Edge of the square that an actor occupies: nine tenths of a tile.
pub const ACTOR_FOOTPRINT: i64 = 2250;

/// Edge of the square that a tile blocks: ten tiles.
pub const WALL_FOOTPRINT: i64 = 25000;

/// Two axis-aligned squares, given by centre and edge, share an inner point.
/// Squares that only touch do not overlap.
pub open spec fn boxes_overlap(a_pos: Position, a_size: int, b_pos: Position, b_size: int) -> bool {
    &&& 2 * a_pos.x - a_size < 2 * b_pos.x + b_size
    &&& 2 * a_pos.x + a_size > 2 * b_pos.x - b_size
    &&& 2 * a_pos.y - a_size < 2 * b_pos.y + b_size
    &&& 2 * a_pos.y + a_size > 2 * b_pos.y - b_size
}

/// Tells whether two axis-aligned squares overlap.
pub fn collide(a_pos: Position, a_size: i64, b_pos: Position, b_size: i64) -> (hit: bool)
    requires
        a_pos.in_reach(),
        b_pos.in_reach(),
        0 <= a_size <= REACH_LIMIT,
        0 <= b_size <= REACH_LIMIT,
    ensures
        hit == boxes_overlap(a_pos, a_size as int, b_pos, b_size as int),
{
    2 * a_pos.x - a_size < 2 * b_pos.x + b_size && 2 * a_pos.x + a_size > 2 * b_pos.x - b_size
        && 2 * a_pos.y - a_size < 2 * b_pos.y + b_size && 2 * a_pos.y + a_size > 2 * b_pos.y
        - b_size
}

/// An actor standing at `target` overlaps the tile `wall` of a map whose
/// origin is `origin`.
pub open spec fn hits_wall(target: Position, wall: TileCollider, origin: Position) -> bool {
    boxes_overlap(
        target,
        ACTOR_FOOTPRINT as int,
        real_pos(wall.position, origin),
        WALL_FOOTPRINT as int,
    )
}

/// An actor standing at `target` overlaps some tile.
pub open spec fn is_blocked(target: Position, walls: Seq<TileCollider>, origin: Position) -> bool {
    exists|i: int| 0 <= i < walls.len() && hits_wall(target, #[trigger] walls[i], origin)
}

/// Returns true if an actor at `target_player_pos` would overlap a tile,
/// whatever the tile's kind.
pub fn check_collosion(target_player_pos: Position, wall: &Vec<TileCollider>, origin: Position) -> (blocked: bool)
    requires
        target_player_pos.in_reach(),
        tiles_in_world(wall@),
        origin.in_world(),
    ensures
        blocked == is_blocked(target_player_pos, wall@, origin),
{
    let mut i: usize = 0;
    while i < wall.len()
        invariant
            i <= wall.len(),
            target_player_pos.in_reach(),
            tiles_in_world(wall@),
            origin.in_world(),
            forall|j: int| 0 <= j < i ==> !hits_wall(target_player_pos, #[trigger] wall@[j], origin),
        decreases wall.len() - i,
    {
        let tile = get_real_pos(wall[i].position, origin);
        if collide(target_player_pos, ACTOR_FOOTPRINT, tile, WALL_FOOTPRINT) {
            return true;
        }
        i += 1;
    }
    false
}

/// A position that overlaps no tile is not blocked.
pub proof fn lemma_clear_of_every_tile_is_not_blocked(
    target: Position,
    walls: Seq<TileCollider>,
    origin: Position,
)
    requires
        forall|i: int| 0 <= i < walls.len() ==> !hits_wall(target, #[trigger] walls[i], origin),
    ensures
        !is_blocked(target, walls, origin),
{
}

/// A position that coincides with a tile's place in the world is blocked.
pub proof fn lemma_on_a_tile_is_blocked(
    target: Position,
    walls: Seq<TileCollider>,
    origin: Position,
    i: int,
)
    requires
        0 <= i < walls.len(),
        walls[i].position.in_world(),
        origin.in_world(),
        target == real_pos(walls[i].position, origin),
    ensures
        is_blocked(target, walls, origin),
{
    assert(hits_wall(target, walls[i], origin));
}

/// Squared distance between two points. The square stands for the distance
/// wherever two distances are compared: it orders pairs of points as the
/// distance itself does, and it is exact.
pub fn calculate_distance(pos1: Position, pos2: Position) -> (d: i64)
    requires
        pos1.in_reach(),
        pos2.in_reach(),
    ensures
        d == dist2(pos1, pos2),
        d >= 0,
{
    let dx: i64 = pos1.x - pos2.x;
    let dy: i64 = pos1.y - pos2.y;
    assert(0 <= dx * dx <= 4_000_000_000_000_000_000) by (nonlinear_arith)
        requires
            -2_000_000_000 <= dx <= 2_000_000_000,
    ;
    assert(0 <= dy * dy <= 4_000_000_000_000_000_000) by (nonlinear_arith)
        requires
            -2_000_000_000 <= dy <= 2_000_000_000,
    ;
    dx * dx + dy * dy
}

/// Length of one step: a tile for the player, a tile less the ghosts'
/// debuff for a ghost.
pub open spec fn next_step(is_ghost: bool) -> int {
    if is_ghost {
        STEP_SIZE * TILE_SIZE - GHOST_DEBUFF
    } else {
        STEP_SIZE * TILE_SIZE
    }
}

/// Length of one step of a ghost (2.0 world units) or of the player (2.5).
pub fn calculate_next_step(is_ghost: bool) -> (step: i64)
    ensures
        step == next_step(is_ghost),
        step == if is_ghost { 2000int } else { 2500int },
{
    let calc: i64 = STEP_SIZE * TILE_SIZE;
    if is_ghost {
        calc - GHOST_DEBUFF
    } else {
        calc
    }
}

/// The point `len` away from `pos` in direction `dir`; `pos` itself for
/// `Idle`. Up is the direction of growing `y`, right that of growing `x`.
pub open spec fn step_toward(pos: Position, dir: CurrentDirection, len: int) -> Position {
    match dir {
        CurrentDirection::Up => pos.offset(0, len),
        CurrentDirection::Down => pos.offset(0, -len),
        CurrentDirection::Left => pos.offset(-len, 0),
        CurrentDirection::Right => pos.offset(len, 0),
        CurrentDirection::Idle => pos,
    }
}

/// Takes one step of length `len` from `pos` in direction `dir`.
pub fn step_from(pos: Position, dir: CurrentDirection, len: i64) -> (r: Position)
    requires
        pos.in_world(),
        -WORLD_LIMIT <= len <= WORLD_LIMIT,
    ensures
        r == step_toward(pos, dir, len as int),
        r.within(WORLD_LIMIT + if len < 0 { -len } else { len as int }),
{
    match dir {
        CurrentDirection::Up => Position { x: pos.x, y: pos.y + len },
        CurrentDirection::Down => Position { x: pos.x, y: pos.y - len },
        CurrentDirection::Left => Position { x: pos.x - len, y: pos.y },
        CurrentDirection::Right => Position { x: pos.x + len, y: pos.y },
        CurrentDirection::Idle => pos,
    }
}

/// How many player steps ahead of the player the ambush point lies.
pub const AMBUSH_STEPS: i64 = 4;

/// The point four player steps ahead of `pacman_pos` in the direction the
/// player moves in; the player's own position while it is idle.
pub open spec fn pos_in_front(pacman_pos: Position, pacman_direction: CurrentDirection) -> Position {
    step_toward(pacman_pos, pacman_direction, AMBUSH_STEPS * next_step(false))
}

/// The point four player steps ahead of the player.
pub fn get_pos_infront_of_pacman(pacman_pos: Position, pacman_directon: CurrentDirection) -> (r: Position)
    requires
        pacman_pos.in_world(),
    ensures
        r == pos_in_front(pacman_pos, pacman_directon),
        r.in_reach(),
{
    let ahead: i64 = AMBUSH_STEPS * calculate_next_step(false);
    step_from(pacman_pos, pacman_directon, ahead)
}

/// Distance below which Clyde turns away from the player: 8 world units.
pub const SHY_DISTANCE: i64 = 8000;

/// Tells whether the player is more than 8 world units away from `me`.
pub fn do_i_run(pacman_pos: Position, me: Position) -> (far: bool)
    requires
        pacman_pos.in_reach(),
        me.in_reach(),
    ensures
        far == (dist2(pacman_pos, me) > SHY_DISTANCE * SHY_DISTANCE),
{
    calculate_distance(pacman_pos, me) > SHY_DISTANCE * SHY_DISTANCE
}

/// Every point of the sequence lies within reach.
pub open spec fn all_in_reach(all: Seq<Position>) -> bool {
    forall|i: int| 0 <= i < all.len() ==> (#[trigger] all[i]).in_reach()
}

/// `all[k]` is the first of the points of `all` that are nearest to
/// `target`: none is nearer, and those before it are farther.
pub open spec fn is_nearest_at(all: Seq<Position>, target: Position, k: int) -> bool {
    &&& 0 <= k < all.len()
    &&& forall|j: int| 0 <= j < all.len() ==> dist2(all[k], target) <= dist2(#[trigger] all[j], target)
    &&& forall|j: int| 0 <= j < k ==> dist2(all[k], target) < dist2(#[trigger] all[j], target)
}

/// `all[k]` is the first of the points of `all` that are farthest from
/// `target`.
pub open spec fn is_farthest_at(all: Seq<Position>, target: Position, k: int) -> bool {
    &&& 0 <= k < all.len()
    &&& forall|j: int| 0 <= j < all.len() ==> dist2(all[k], target) >= dist2(#[trigger] all[j], target)
    &&& forall|j: int| 0 <= j < k ==> dist2(all[k], target) > dist2(#[trigger] all[j], target)
}

/// Index of the first point of `all` that is nearest to `target`; 0 for an
/// empty sequence.
pub open spec fn nearest_index(all: Seq<Position>, target: Position) -> int
    decreases all.len(),
{
    if all.len() <= 1 {
        0
    } else {
        let k = nearest_index(all.drop_last(), target);
        if dist2(all.last(), target) < dist2(all[k], target) {
            all.len() - 1
        } else {
            k
        }
    }
}

/// Index of the first point of `all` that is farthest from `target`; 0 for
/// an empty sequence.
pub open spec fn farthest_index(all: Seq<Position>, target: Position) -> int
    decreases all.len(),
{
    if all.len() <= 1 {
        0
    } else {
        let k = farthest_index(all.drop_last(), target);
        if dist2(all.last(), target) > dist2(all[k], target) {
            all.len() - 1
        } else {
            k
        }
    }
}

/// The index that `nearest_index` gives is that of the first nearest point.
pub proof fn lemma_nearest_index_is_first_nearest(all: Seq<Position>, target: Position)
    requires
        all.len() > 0,
    ensures
        is_nearest_at(all, target, nearest_index(all, target)),
    decreases all.len(),
{
    if all.len() > 1 {
        let front = all.drop_last();
        lemma_nearest_index_is_first_nearest(front, target);
        assert(forall|j: int| 0 <= j < front.len() ==> front[j] == all[j]);
    }
}

/// The index that `farthest_index` gives is that of the first farthest
/// point.
pub proof fn lemma_farthest_index_is_first_farthest(all: Seq<Position>, target: Position)
    requires
        all.len() > 0,
    ensures
        is_farthest_at(all, target, farthest_index(all, target)),
    decreases all.len(),
{
    if all.len() > 1 {
        let front = all.drop_last();
        lemma_farthest_index_is_first_farthest(front, target);
        assert(forall|j: int| 0 <= j < front.len() ==> front[j] == all[j]);
    }
}

/// Only one index is that of the first nearest point.
pub proof fn lemma_first_nearest_is_unique(all: Seq<Position>, target: Position, a: int, b: int)
    requires
        is_nearest_at(all, target, a),
        is_nearest_at(all, target, b),
    ensures
        a == b,
{
    if a < b {
        assert(dist2(all[b], target) < dist2(all[a], target));
    } else if b < a {
        assert(dist2(all[a], target) < dist2(all[b], target));
    }
}

/// Of two points at the same distance from the target the later one is
/// never chosen as the nearest: a tie goes to the point that comes first.
pub proof fn lemma_nearest_tie_goes_to_the_earlier(
    all: Seq<Position>,
    target: Position,
    i: int,
    j: int,
)
    requires
        0 <= i < j < all.len(),
        dist2(all[i], target) == dist2(all[j], target),
    ensures
        nearest_index(all, target) != j,
{
    lemma_nearest_index_is_first_nearest(all, target);
    if nearest_index(all, target) == j {
        assert(dist2(all[j], target) < dist2(all[i], target));
    }
}

/// Of two points at the same distance from the target the later one is
/// never chosen as the farthest.
pub proof fn lemma_farthest_tie_goes_to_the_earlier(
    all: Seq<Position>,
    target: Position,
    i: int,
    j: int,
)
    requires
        0 <= i < j < all.len(),
        dist2(all[i], target) == dist2(all[j], target),
    ensures
        farthest_index(all, target) != j,
{
    lemma_farthest_index_is_first_farthest(all, target);
    if farthest_index(all, target) == j {
        assert(dist2(all[j], target) > dist2(all[i], target));
    }
}

/// Picks, among the points of `all`, the first that is nearest to `target`,
/// and returns its index.
pub fn choose_nearest(all: &Vec<Position>, target: Position) -> (k: usize)
    requires
        all@.len() > 0,
        all_in_reach(all@),
        target.in_reach(),
    ensures
        k == nearest_index(all@, target),
        is_nearest_at(all@, target, k as int),
{
    let mut best: usize = 0;
    let mut lowest: i64 = calculate_distance(all[0], target);
    let mut i: usize = 1;
    assert(all@.take(1).drop_last().len() == 0);
    while i < all.len()
        invariant
            1 <= i <= all.len(),
            all_in_reach(all@),
            target.in_reach(),
            0 <= best < i,
            best == nearest_index(all@.take(i as int), target),
            lowest == dist2(all@[best as int], target),
        decreases all.len() - i,
    {
        let distance = calculate_distance(all[i], target);
        proof {
            let upto = all@.take(i + 1);
            assert(upto.drop_last() =~= all@.take(i as int));
            assert(upto.last() == all@[i as int]);
            assert(upto[best as int] == all@[best as int]);
        }
        if distance < lowest {
            lowest = distance;
            best = i;
        }
        i += 1;
    }
    proof {
        assert(all@.take(all.len() as int) =~= all@);
        lemma_nearest_index_is_first_nearest(all@, target);
    }
    best
}

/// Picks, among the points of `all`, the first that is farthest from
/// `target`, and returns its index.
pub fn choose_farthest(all: &Vec<Position>, target: Position) -> (k: usize)
    requires
        all@.len() > 0,
        all_in_reach(all@),
        target.in_reach(),
    ensures
        k == farthest_index(all@, target),
        is_farthest_at(all@, target, k as int),
{
    let mut best: usize = 0;
    let mut highest: i64 = calculate_distance(all[0], target);
    let mut i: usize = 1;
    assert(all@.take(1).drop_last().len() == 0);
    while i < all.len()
        invariant
            1 <= i <= all.len(),
            all_in_reach(all@),
            target.in_reach(),
            0 <= best < i,
            best == farthest_index(all@.take(i as int), target),
            highest == dist2(all@[best as int], target),
        decreases all.len() - i,
    {
        let distance = calculate_distance(all[i], target);
        proof {
            let upto = all@.take(i + 1);
            assert(upto.drop_last() =~= all@.take(i as int));
            assert(upto.last() == all@[i as int]);
            assert(upto[best as int] == all@[best as int]);
        }
        if distance > highest {
            highest = distance;
            best = i;
        }
        i += 1;
    }
    proof {
        assert(all@.take(all.len() as int) =~= all@);
        lemma_farthest_index_is_first_farthest(all@, target);
    }
    best
}

/// The four neighbouring positions of an actor, where it may step there.
#[derive(Clone, Copy, Debug, PartialEq, Eq, Structural)]
pub struct Moves {
    pub up: Option<Position>,
    pub down: Option<Position>,
    pub left: Option<Position>,
    pub right: Option<Position>,
}

/// The legal moves of a ghost: one entry per direction, the same positions
/// as a list in the order up, down, left, right, and the move that was
/// chosen among them, if one was.
pub struct MoveDesc {
    pub up: Option<Position>,
    pub down: Option<Position>,
    pub left: Option<Position>,
    pub right: Option<Position>,
    pub all: Vec<Position>,
    pub choice: Option<Position>,
    pub alt_choice: Option<Position>,
}

/// A ghost at `my_pos` that last moved in direction `heading` may step in
/// direction `dir`: the position one ghost step away is not blocked, and
/// `dir` is not the reverse of `heading`.
pub open spec fn legal_move(
    my_pos: Position,
    heading: CurrentDirection,
    dir: CurrentDirection,
    walls: Seq<TileCollider>,
) -> bool {
    &&& !is_blocked(step_toward(my_pos, dir, next_step(true)), walls, default_map_origin())
    &&& heading.opposite() != dir
}

/// The position one ghost step away in direction `dir`, where that move is
/// legal.
pub open spec fn candidate(
    my_pos: Position,
    heading: CurrentDirection,
    dir: CurrentDirection,
    walls: Seq<TileCollider>,
) -> Option<Position> {
    if legal_move(my_pos, heading, dir, walls) {
        Some(step_toward(my_pos, dir, next_step(true)))
    } else {
        None
    }
}

/// The sequence that holds the position, or nothing.
pub open spec fn listed(candidate: Option<Position>) -> Seq<Position> {
    match candidate {
        Some(p) => seq![p],
        None => Seq::empty(),
    }
}

/// The legal moves of a ghost, in the order up, down, left, right.
pub open spec fn candidates(my_pos: Position, heading: CurrentDirection, walls: Seq<TileCollider>) -> Seq<Position> {
    listed(candidate(my_pos, heading, CurrentDirection::Up, walls))
        + listed(candidate(my_pos, heading, CurrentDirection::Down, walls))
        + listed(candidate(my_pos, heading, CurrentDirection::Left, walls))
        + listed(candidate(my_pos, heading, CurrentDirection::Right, walls))
}

impl MoveDesc {
    /// The description holds exactly the legal moves of a ghost at `my_pos`
    /// that last moved in direction `heading`.
    pub open spec fn describes(
        self,
        my_pos: Position,
        heading: CurrentDirection,
        walls: Seq<TileCollider>,
    ) -> bool {
        &&& self.up == candidate(my_pos, heading, CurrentDirection::Up, walls)
        &&& self.down == candidate(my_pos, heading, CurrentDirection::Down, walls)
        &&& self.left == candidate(my_pos, heading, CurrentDirection::Left, walls)
        &&& self.right == candidate(my_pos, heading, CurrentDirection::Right, walls)
        &&& self.all@ == candidates(my_pos, heading, walls)
    }

    /// The direction whose entry is `pos`, looked up in the order up, down,
    /// left, right.
    pub open spec fn direction_to(self, pos: Position) -> Option<CurrentDirection> {
        if self.up == Some(pos) {
            Some(CurrentDirection::Up)
        } else if self.down == Some(pos) {
            Some(CurrentDirection::Down)
        } else if self.left == Some(pos) {
            Some(CurrentDirection::Left)
        } else if self.right == Some(pos) {
            Some(CurrentDirection::Right)
        } else {
            None
        }
    }

    /// Finds the direction whose entry is `pos`.
    pub fn direction_of(&self, pos: Position) -> (d: Option<CurrentDirection>)
        ensures
            d == self.direction_to(pos),
    {
        if holds(self.up, pos) {
            Some(CurrentDirection::Up)
        } else if holds(self.down, pos) {
            Some(CurrentDirection::Down)
        } else if holds(self.left, pos) {
            Some(CurrentDirection::Left)
        } else if holds(self.right, pos) {
            Some(CurrentDirection::Right)
        } else {
            None
        }
    }
}

/// Tells whether the entry holds exactly `pos`.
pub fn holds(entry: Option<Position>, pos: Position) -> (same: bool)
    ensures
        same == (entry == Some(pos)),
{
    match entry {
        Some(p) => p.x == pos.x && p.y == pos.y,
        None => false,
    }
}

/// The legal moves hold up to four positions, each one ghost step away from
/// `my_pos` and within reach.
pub proof fn lemma_candidates_are_steps(my_pos: Position, heading: CurrentDirection, walls: Seq<TileCollider>)
    requires
        my_pos.in_world(),
    ensures
        candidates(my_pos, heading, walls).len() <= 4,
        all_in_reach(candidates(my_pos, heading, walls)),
        forall|i: int|
            0 <= i < candidates(my_pos, heading, walls).len() ==> !is_blocked(
                #[trigger] candidates(my_pos, heading, walls)[i],
                walls,
                default_map_origin(),
            ),
{
}

/// Computes the legal moves of a ghost at `my_pos` that last moved in
/// direction `my_current_direction`. None of them is chosen yet. Ghosts
/// never turn round: the reverse of the current direction is no legal move.
/// Where the player is plays no part in what is legal.
pub fn determine_possible_moves(
    my_pos: Position,
    my_current_direction: CurrentDirection,
    player_pos: Position,
    walls: &Vec<TileCollider>,
) -> (move_data: MoveDesc)
    requires
        my_pos.in_world(),
        tiles_in_world(walls@),
    ensures
        move_data.describes(my_pos, my_current_direction, walls@),
        move_data.choice is None,
        move_data.alt_choice is None,
{
    let step = calculate_next_step(true);
    let up = step_from(my_pos, CurrentDirection::Up, step);
    let down = step_from(my_pos, CurrentDirection::Down, step);
    let left = step_from(my_pos, CurrentDirection::Left, step);
    let right = step_from(my_pos, CurrentDirection::Right, step);

    let mut move_data = MoveDesc {
        up: None,
        down: None,
        left: None,
        right: None,
        all: Vec::new(),
        choice: None,
        alt_choice: None,
    };
    let reverse = my_current_direction.opposite();
    let ghost c_up = listed(candidate(my_pos, my_current_direction, CurrentDirection::Up, walls@));
    let ghost c_down = listed(candidate(my_pos, my_current_direction, CurrentDirection::Down, walls@));
    let ghost c_left = listed(candidate(my_pos, my_current_direction, CurrentDirection::Left, walls@));
    let ghost c_right = listed(candidate(my_pos, my_current_direction, CurrentDirection::Right, walls@));

    let mut moves: Vec<Position> = Vec::new();
    if !check_collosion(up, walls, map_origin()) && !matches!(reverse, CurrentDirection::Up) {
        move_data.up = Some(up);
        moves.push(up);
    }
    assert(moves@ =~= c_up);
    if !check_collosion(down, walls, map_origin()) && !matches!(reverse, CurrentDirection::Down) {
        move_data.down = Some(down);
        moves.push(down);
    }
    assert(moves@ =~= c_up + c_down);
    if !check_collosion(left, walls, map_origin()) && !matches!(reverse, CurrentDirection::Left) {
        move_data.left = Some(left);
        moves.push(left);
    }
    assert(moves@ =~= c_up + c_down + c_left);
    if !check_collosion(right, walls, map_origin()) && !matches!(reverse, CurrentDirection::Right) {
        move_data.right = Some(right);
        moves.push(right);
    }
    assert(moves@ =~= c_up + c_down + c_left + c_right);
    move_data.all = moves;
    move_data
}

/// The legal moves never hold the step back: for a ghost that last moved in
/// a direction other than `Idle`, the entry of the reverse direction is
/// empty and the position one step back is not in the list.
pub proof fn lemma_candidates_exclude_reverse(
    my_pos: Position,
    heading: CurrentDirection,
    walls: Seq<TileCollider>,
)
    requires
        my_pos.in_world(),
        heading != CurrentDirection::Idle,
    ensures
        candidate(my_pos, heading, heading.opposite(), walls) is None,
        forall|i: int|
            0 <= i < candidates(my_pos, heading, walls).len() ==> #[trigger] candidates(
                my_pos,
                heading,
                walls,
            )[i] != step_toward(my_pos, heading.opposite(), next_step(true)),
{
}

/// The first of the points of `all` that are nearest to `target`.
pub open spec fn nearest(all: Seq<Position>, target: Position) -> Position {
    all[nearest_index(all, target)]
}

/// The first of the points of `all` that are farthest from `target`.
pub open spec fn farthest(all: Seq<Position>, target: Position) -> Position {
    all[farthest_index(all, target)]
}

/// Chooses among the legal moves of a ghost the one nearest to `player_pos`;
/// of several at the same distance the first in the order up, down, left,
/// right. Returns nothing where the ghost has no legal move.
pub fn chase(
    player_pos: Position,
    my_current_direction: CurrentDirection,
    my_pos: Position,
    walls: &Vec<TileCollider>,
) -> (r: Option<MoveDesc>)
    requires
        player_pos.in_reach(),
        my_pos.in_world(),
        tiles_in_world(walls@),
    ensures
        r is None <==> candidates(my_pos, my_current_direction, walls@).len() == 0,
        r matches Some(moves) ==> {
            &&& moves.describes(my_pos, my_current_direction, walls@)
            &&& moves.choice == Some(nearest(moves.all@, player_pos))
            &&& is_nearest_at(moves.all@, player_pos, nearest_index(moves.all@, player_pos))
            &&& moves.alt_choice is None
        },
{
    let mut moves = determine_possible_moves(my_pos, my_current_direction, player_pos, walls);
    proof {
        lemma_candidates_are_steps(my_pos, my_current_direction, walls@);
    }
    if moves.all.len() != 0 {
        let best_choise = choose_nearest(&moves.all, player_pos);
        moves.choice = Some(moves.all[best_choise]);
        Some(moves)
    } else {
        None
    }
}

/// Chooses among the legal moves of a ghost the one farthest from
/// `player_pos`; of several at the same distance the first in the order up,
/// down, left, right. Returns nothing where the ghost has no legal move.
pub fn get_heighest_distance(
    player_pos: Position,
    my_current_direction: CurrentDirection,
    my_pos: Position,
    walls: &Vec<TileCollider>,
) -> (r: Option<MoveDesc>)
    requires
        player_pos.in_reach(),
        my_pos.in_world(),
        tiles_in_world(walls@),
    ensures
        r is None <==> candidates(my_pos, my_current_direction, walls@).len() == 0,
        r matches Some(moves) ==> {
            &&& moves.describes(my_pos, my_current_direction, walls@)
            &&& moves.choice == Some(farthest(moves.all@, player_pos))
            &&& is_farthest_at(moves.all@, player_pos, farthest_index(moves.all@, player_pos))
            &&& moves.alt_choice is None
        },
{
    let mut moves = determine_possible_moves(my_pos, my_current_direction, player_pos, walls);
    proof {
        lemma_candidates_are_steps(my_pos, my_current_direction, walls@);
    }
    if moves.all.len() != 0 {
        let best_choise = choose_farthest(&moves.all, player_pos);
        moves.choice = Some(moves.all[best_choise]);
        Some(moves)
    } else {
        None
    }
}

/// The power pellets of a map: the position of each, relative to the map,
/// under the number it was given when the map was read. A ghost's scatter
/// zone is the place of one of them. Every pellet of the table lies in the
/// world.
pub struct PowerPellets {
    pellets: PositionTable,
}

/// Every pellet of the table lies in the world.
pub open spec fn pellets_in_world(pellets: Map<usize, Position>) -> bool {
    entries_in_world(pellets)
}

/// The place in the world of the pellet kept under `number`, on a map
/// whose origin is `origin`.
pub open spec fn zone_in_world(pellets: Map<usize, Position>, number: usize, origin: Position) -> Option<
    Position,
> {
    match lookup(pellets, number) {
        Some(p) => Some(real_pos(p, origin)),
        None => None,
    }
}

impl PowerPellets {
    /// The pellets, by number.
    pub closed spec fn view(&self) -> Map<usize, Position> {
        self.pellets@
    }

    #[verifier::type_invariant]
    spec fn kept_in_world(&self) -> bool {
        pellets_in_world(self.pellets@)
    }

    /// A table without pellets.
    pub fn new() -> (table: PowerPellets)
        ensures
            table@ == no_entries(),
    {
        PowerPellets { pellets: table_new() }
    }

    /// Records a pellet under `number`, in place of the one recorded there
    /// before, which is returned.
    pub fn insert(&mut self, number: usize, position: Position) -> (previous: Option<Position>)
        requires
            position.in_world(),
        ensures
            final(self)@ == old(self)@.insert(number, position),
            previous == lookup(old(self)@, number),
    {
        let mut taken = PowerPellets::new();
        std::mem::swap(self, &mut taken);
        proof {
            use_type_invariant(&taken);
        }
        let PowerPellets { pellets: mut table } = taken;
        let previous = table_insert(&mut table, number, position);
        *self = PowerPellets { pellets: table };
        previous
    }

    /// The pellet recorded under `number`, relative to the map.
    pub fn get(&self, number: usize) -> (found: Option<Position>)
        ensures
            found == lookup(self@, number),
    {
        table_get(&self.pellets, number)
    }

    /// The place in the world of the pellet recorded under `number`, on a
    /// map whose origin is `origin`.
    pub fn scatter_zone(&self, number: usize, origin: Position) -> (zone: Option<Position>)
        requires
            origin.in_world(),
        ensures
            zone == zone_in_world(self@, number, origin),
            zone matches Some(p) ==> p.within(2 * WORLD_LIMIT),
            pellets_in_world(self@),
    {
        proof {
            use_type_invariant(self);
        }
        match table_get(&self.pellets, number) {
            Some(p) => {
                assert(self@.dom().contains(number));
                Some(get_real_pos(p, origin))
            },
            None => None,
        }
    }
}

impl Default for PowerPellets {
    /// A table without pellets.
    fn default() -> (table: PowerPellets)
        ensures
            table@ == no_entries(),
    {
        PowerPellets { pellets: table_new() }
    }
}

} // verus!
