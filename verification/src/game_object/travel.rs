//! Moves on the grid as a whole: the step of the player, the steps that
//! movable objects take by themselves, and the rides on transporters.

use vstd::prelude::*;

use crate::game_object::behaviors::count_players;
use crate::game_object::components::{BlocksMovement, Direction, Movable, Position};
use crate::game_object::movement::{
    is_unit_delta, move_object, move_succeeds, objects_after_move, CollisionObject,
};
use crate::game_object::object_bundles::GridObject;
use crate::level::Dimensions;

verus! {

/// The number of marked places among the first `k`.
pub open spec fn rank(mask: Seq<bool>, k: int) -> nat
    decreases k,
{
    if k <= 0 {
        0
    } else {
        rank(mask, k - 1) + if mask[k - 1] {
            1nat
        } else {
            0nat
        }
    }
}

/// The first marked place from `from` on, or the length of `mask` if there
/// is none.
pub open spec fn first_marked(mask: Seq<bool>, from: int) -> int
    decreases mask.len() - from,
{
    if from >= mask.len() {
        mask.len() as int
    } else if from >= 0 && mask[from] {
        from
    } else {
        first_marked(mask, from + 1)
    }
}

/// What the movement rules read of the marked objects among the first `k`,
/// in order.
pub open spec fn gathered(objects: Seq<GridObject>, mask: Seq<bool>, k: int) -> Seq<
    CollisionObject,
>
    decreases k,
{
    if k <= 0 {
        Seq::empty()
    } else if mask[k - 1] {
        gathered(objects, mask, k - 1).push(objects[k - 1].collision())
    } else {
        gathered(objects, mask, k - 1)
    }
}

/// The object with the position and the movement blocking that the movement
/// rules left it with.
pub open spec fn updated(object: GridObject, moved: CollisionObject) -> GridObject {
    GridObject { position: moved.position, blocks_movement: moved.blocks_movement, ..object }
}

/// The objects after the marked ones took over, in order, what the movement
/// rules left of them.
pub open spec fn scattered(
    objects: Seq<GridObject>,
    mask: Seq<bool>,
    moved: Seq<CollisionObject>,
) -> Seq<GridObject> {
    Seq::new(
        objects.len(),
        |i: int|
            if mask[i] {
                updated(objects[i], moved[rank(mask, i) as int])
            } else {
                objects[i]
            },
    )
}

/// Whether something at `position` can take a step by `delta` among the
/// marked objects.
pub open spec fn attempt_succeeds(
    objects: Seq<GridObject>,
    mask: Seq<bool>,
    position: Position,
    delta: (i16, i16),
    dimensions: Dimensions,
    can_push: bool,
) -> bool {
    move_succeeds(
        position,
        delta,
        dimensions,
        gathered(objects, mask, objects.len() as int),
        can_push,
    )
}

/// The objects after something at `position` tried to take a step by `delta`
/// among the marked objects. The unmarked objects are as before.
pub open spec fn after_attempt(
    objects: Seq<GridObject>,
    mask: Seq<bool>,
    position: Position,
    delta: (i16, i16),
    dimensions: Dimensions,
    can_push: bool,
) -> Seq<GridObject> {
    if attempt_succeeds(objects, mask, position, delta, dimensions, can_push) {
        scattered(
            objects,
            mask,
            objects_after_move(
                gathered(objects, mask, objects.len() as int),
                position,
                delta,
                dimensions,
                can_push,
            ),
        )
    } else {
        objects
    }
}

/// `position` one step by `delta` further.
pub open spec fn shifted(position: Position, delta: (i16, i16)) -> Position {
    Position { x: (position.x + delta.0) as i16, y: (position.y + delta.1) as i16 }
}

/// As many objects are gathered as are marked.
pub proof fn lemma_gathered_len(objects: Seq<GridObject>, mask: Seq<bool>, k: int)
    ensures
        gathered(objects, mask, k).len() == rank(mask, k),
    decreases k,
{
    if k > 0 {
        lemma_gathered_len(objects, mask, k - 1);
    }
}

/// The rank grows with the place, and a marked place ranks below every later
/// one.
pub proof fn lemma_rank_grows(mask: Seq<bool>, i: int, k: int)
    requires
        0 <= i <= k,
    ensures
        rank(mask, i) <= rank(mask, k),
        i < k && mask[i] ==> rank(mask, i) < rank(mask, k),
    decreases k - i,
{
    if i < k {
        lemma_rank_grows(mask, i, k - 1);
    }
}

/// A marked object is gathered at its rank.
pub proof fn lemma_gathered_at(objects: Seq<GridObject>, mask: Seq<bool>, i: int, k: int)
    requires
        0 <= i < k,
        mask[i],
    ensures
        rank(mask, i) < gathered(objects, mask, k).len(),
        gathered(objects, mask, k)[rank(mask, i) as int] == objects[i].collision(),
    decreases k,
{
    lemma_gathered_len(objects, mask, k);
    lemma_gathered_len(objects, mask, k - 1);
    lemma_rank_grows(mask, i, k);
    if i < k - 1 {
        lemma_gathered_at(objects, mask, i, k - 1);
    }
}

/// Tries to move what stands at `position` one step by `delta` among the
/// objects marked in `mask`, by the rules of [`move_object`]. The unmarked
/// objects take no part and stay as they are.
pub fn move_among(
    objects: &mut Vec<GridObject>,
    mask: &Vec<bool>,
    position: &mut Position,
    delta: (i16, i16),
    dimensions: &Dimensions,
    can_push: bool,
) -> (moved: bool)
    requires
        is_unit_delta(delta),
        mask.len() == old(objects).len(),
    ensures
        moved == attempt_succeeds(
            old(objects)@,
            mask@,
            *old(position),
            delta,
            *dimensions,
            can_push,
        ),
        final(objects)@ == after_attempt(
            old(objects)@,
            mask@,
            *old(position),
            delta,
            *dimensions,
            can_push,
        ),
        moved ==> *final(position) == shifted(*old(position), delta),
        !moved ==> *final(position) == *old(position),
{
    let ghost before = objects@;
    let n: usize = objects.len();
    let mut others: Vec<CollisionObject> = Vec::new();
    let mut i: usize = 0;
    while i < n
        invariant
            i <= n,
            n == objects.len(),
            n == mask.len(),
            objects@ == before,
            others@ == gathered(before, mask@, i as int),
        decreases n - i,
    {
        if mask[i] {
            others.push(objects[i].to_collision());
        }
        i += 1;
    }
    let ghost start = *position;
    if !move_object(position, delta, dimensions, &mut others, can_push) {
        return false;
    }
    proof {
        lemma_gathered_len(before, mask@, n as int);
    }
    let mut r: usize = 0;
    i = 0;
    while i < n
        invariant
            i <= n,
            n == objects.len(),
            n == mask.len(),
            n == before.len(),
            r == rank(mask@, i as int),
            others.len() == rank(mask@, n as int),
            forall|j: int|
                0 <= j < i ==> objects[j] == scattered(before, mask@, others@)[j],
            forall|j: int| i <= j < n ==> objects[j] == before[j],
        decreases n - i,
    {
        if mask[i] {
            proof {
                lemma_rank_grows(mask@, i as int, n as int);
            }
            let mut object: GridObject = objects[i];
            object.position = others[r].position;
            object.blocks_movement = others[r].blocks_movement;
            objects.set(i, object);
            r += 1;
        }
        i += 1;
    }
    assert(objects@ =~= scattered(before, mask@, others@));
    true
}

/// For each object, whether it is not a player.
pub open spec fn bystanders_of_player(objects: Seq<GridObject>) -> Seq<bool> {
    Seq::new(objects.len(), |i: int| !objects[i].player)
}

/// For each object, whether it does not move by itself.
pub open spec fn stationary(objects: Seq<GridObject>) -> Seq<bool> {
    Seq::new(objects.len(), |i: int| objects[i].movable is None)
}

/// For each object, whether it is a player.
pub open spec fn player_marks(objects: Seq<GridObject>) -> Seq<bool> {
    Seq::new(objects.len(), |i: int| objects[i].player)
}

/// Whether the player can take a step by `delta`: there is exactly one
/// player, and its move among all other objects, with pushing, succeeds.
pub open spec fn player_moves(
    objects: Seq<GridObject>,
    dimensions: Dimensions,
    delta: (i16, i16),
) -> bool {
    let p = first_marked(player_marks(objects), 0);
    &&& rank(player_marks(objects), objects.len() as int) == 1
    &&& attempt_succeeds(
        objects,
        bystanders_of_player(objects),
        objects[p].position,
        delta,
        dimensions,
        true,
    )
}

/// The objects after the player took a step by `delta`.
pub open spec fn after_player_move(
    objects: Seq<GridObject>,
    dimensions: Dimensions,
    delta: (i16, i16),
) -> Seq<GridObject> {
    let p = first_marked(player_marks(objects), 0);
    after_attempt(
        objects,
        bystanders_of_player(objects),
        objects[p].position,
        delta,
        dimensions,
        true,
    ).update(p, GridObject { position: shifted(objects[p].position, delta), ..objects[p] })
}

/// The first marked place is a place of the mask or its length; it is
/// marked, and no earlier place from `from` on is.
pub proof fn lemma_first_marked(mask: Seq<bool>, from: int)
    requires
        0 <= from,
    ensures
        from <= first_marked(mask, from) || first_marked(mask, from) == mask.len(),
        first_marked(mask, from) <= mask.len(),
        first_marked(mask, from) < mask.len() ==> mask[first_marked(mask, from)],
        forall|j: int| from <= j < first_marked(mask, from) ==> !mask[j],
    decreases mask.len() - from,
{
    if from < mask.len() && !mask[from] {
        lemma_first_marked(mask, from + 1);
    }
}

fn find_marked(mask: &Vec<bool>) -> (r: usize)
    ensures
        r == first_marked(mask@, 0),
        r <= mask.len(),
        r < mask.len() ==> mask[r as int],
{
    let mut i: usize = 0;
    while i < mask.len() && !mask[i]
        invariant
            i <= mask.len(),
            first_marked(mask@, 0) == first_marked(mask@, i as int),
        decreases mask.len() - i,
    {
        i += 1;
    }
    i
}

fn count_marked(mask: &Vec<bool>) -> (r: usize)
    ensures
        r == rank(mask@, mask.len() as int),
{
    let mut r: usize = 0;
    let mut i: usize = 0;
    while i < mask.len()
        invariant
            i <= mask.len(),
            r == rank(mask@, i as int),
            r <= i,
        decreases mask.len() - i,
    {
        if mask[i] {
            r += 1;
        }
        i += 1;
    }
    r
}

/// The place of the only player among the objects; none unless there is
/// exactly one player.
pub open spec fn the_player(objects: Seq<GridObject>) -> Option<int> {
    if rank(player_marks(objects), objects.len() as int) == 1 {
        Some(first_marked(player_marks(objects), 0))
    } else {
        None
    }
}

/// The players among the first `k` objects are counted by their marks.
pub proof fn lemma_players_counted(objects: Seq<GridObject>, k: int)
    requires
        k <= objects.len(),
    ensures
        count_players(objects, k) == rank(player_marks(objects), k),
    decreases k,
{
    if k > 0 {
        lemma_players_counted(objects, k - 1);
    }
}

/// Finds the only player among the objects; none unless there is exactly one
/// player.
pub fn single_player(objects: &Vec<GridObject>) -> (found: Option<usize>)
    ensures
        found is Some <==> count_players(objects@, objects.len() as int) == 1,
        found matches Some(p) ==> p < objects.len() && objects[p as int].player && the_player(
            objects@,
        ) == Some(p as int),
        found is None ==> the_player(objects@) is None,
{
    let n: usize = objects.len();
    let mut players: Vec<bool> = Vec::new();
    let mut i: usize = 0;
    while i < n
        invariant
            i <= n,
            n == objects.len(),
            players.len() == i,
            forall|j: int| 0 <= j < i ==> players[j] == objects[j].player,
        decreases n - i,
    {
        players.push(objects[i].player);
        i += 1;
    }
    assert(players@ =~= player_marks(objects@));
    proof {
        lemma_players_counted(objects@, n as int);
    }
    if count_marked(&players) != 1 {
        return None;
    }
    let p: usize = find_marked(&players);
    proof {
        if p >= n {
            lemma_first_marked(players@, 0);
            lemma_rank_zero(players@, n as int);
        }
    }
    Some(p)
}

/// Moves the player one step by `delta`, pushing what can be pushed. Nothing
/// happens unless the grid holds exactly one player.
pub fn move_player(
    objects: &mut Vec<GridObject>,
    dimensions: &Dimensions,
    delta: (i16, i16),
) -> (moved: bool)
    requires
        is_unit_delta(delta),
    ensures
        moved == player_moves(old(objects)@, *dimensions, delta),
        moved ==> final(objects)@ == after_player_move(old(objects)@, *dimensions, delta),
        !moved ==> final(objects)@ == old(objects)@,
{
    let n: usize = objects.len();
    let mut players: Vec<bool> = Vec::new();
    let mut others: Vec<bool> = Vec::new();
    let mut i: usize = 0;
    while i < n
        invariant
            i <= n,
            n == objects.len(),
            objects@ == old(objects)@,
            players.len() == i,
            others.len() == i,
            forall|j: int| 0 <= j < i ==> players[j] == objects[j].player,
            forall|j: int| 0 <= j < i ==> others[j] == !objects[j].player,
        decreases n - i,
    {
        players.push(objects[i].player);
        others.push(!objects[i].player);
        i += 1;
    }
    assert(players@ =~= player_marks(objects@));
    assert(others@ =~= bystanders_of_player(objects@));
    if count_marked(&players) != 1 {
        return false;
    }
    let p: usize = find_marked(&players);
    proof {
        if p >= n {
            lemma_first_marked(players@, 0);
            lemma_rank_zero(players@, n as int);
        }
    }
    let mut position: Position = objects[p].position;
    let ghost before = objects@;
    if !move_among(objects, &others, &mut position, delta, dimensions, true) {
        return false;
    }
    let mut player: GridObject = objects[p];
    player.position = position;
    objects.set(p, player);
    true
}

/// Where no place among the first `k` is marked, the rank is zero.
pub proof fn lemma_rank_zero(mask: Seq<bool>, k: int)
    requires
        forall|j: int| 0 <= j < k ==> !mask[j],
    ensures
        rank(mask, k) == 0,
    decreases k,
{
    if k > 0 {
        lemma_rank_zero(mask, k - 1);
    }
}

/// Whether `objects[i]` can take a step in `direction` by itself: its move
/// among the objects that do not move by themselves, without pushing,
/// succeeds.
pub open spec fn step_succeeds(
    objects: Seq<GridObject>,
    dimensions: Dimensions,
    i: int,
    direction: Direction,
) -> bool {
    attempt_succeeds(
        objects,
        stationary(objects),
        objects[i].position,
        direction.spec_to_delta(),
        dimensions,
        false,
    )
}

/// The objects after `objects[i]` took a step in `direction`, which it faces
/// from then on.
pub open spec fn after_step(
    objects: Seq<GridObject>,
    dimensions: Dimensions,
    i: int,
    direction: Direction,
) -> Seq<GridObject> {
    after_attempt(
        objects,
        stationary(objects),
        objects[i].position,
        direction.spec_to_delta(),
        dimensions,
        false,
    ).update(
        i,
        GridObject {
            position: shifted(objects[i].position, direction.spec_to_delta()),
            direction: Some(direction),
            ..objects[i]
        },
    )
}

/// The objects after `objects[i]` turned to face `direction` where it
/// stands.
pub open spec fn turned(objects: Seq<GridObject>, i: int, direction: Direction) -> Seq<
    GridObject,
> {
    objects.update(i, GridObject { direction: Some(direction), ..objects[i] })
}

/// The objects after `objects[i]` had its turn to move by itself.
///
/// A bouncing object steps the way it faces, or turns round if it cannot. An
/// object that follows its right hand steps to its right and faces that way
/// if it can; else it steps ahead; if it can do neither it turns left where
/// it stands. Objects that do not move by themselves, or face no way, do
/// nothing.
pub open spec fn mover_step(objects: Seq<GridObject>, dimensions: Dimensions, i: int) -> Seq<
    GridObject,
> {
    match (objects[i].movable, objects[i].direction) {
        (Some(Movable::Bounce), Some(direction)) => if step_succeeds(
            objects,
            dimensions,
            i,
            direction,
        ) {
            after_step(objects, dimensions, i, direction)
        } else {
            turned(objects, i, direction.spec_inverse())
        },
        (Some(Movable::FollowRightHand), Some(direction)) => if step_succeeds(
            objects,
            dimensions,
            i,
            direction.spec_right_hand(),
        ) {
            after_step(objects, dimensions, i, direction.spec_right_hand())
        } else if step_succeeds(objects, dimensions, i, direction) {
            after_step(objects, dimensions, i, direction)
        } else {
            turned(objects, i, direction.spec_left_hand())
        },
        _ => objects,
    }
}

/// The objects after the first `k` of them had their turn to move by
/// themselves, one after the other.
pub open spec fn moved_upto(objects: Seq<GridObject>, dimensions: Dimensions, k: int) -> Seq<
    GridObject,
>
    decreases k,
{
    if k <= 0 {
        objects
    } else {
        mover_step(moved_upto(objects, dimensions, k - 1), dimensions, k - 1)
    }
}

fn stationary_mask(objects: &Vec<GridObject>) -> (mask: Vec<bool>)
    ensures
        mask@ == stationary(objects@),
{
    let mut mask: Vec<bool> = Vec::new();
    let mut i: usize = 0;
    while i < objects.len()
        invariant
            i <= objects.len(),
            mask.len() == i,
            forall|j: int| 0 <= j < i ==> mask[j] == (objects[j].movable is None),
        decreases objects.len() - i,
    {
        mask.push(objects[i].movable.is_none());
        i += 1;
    }
    assert(mask@ =~= stationary(objects@));
    mask
}

fn step(
    objects: &mut Vec<GridObject>,
    mask: &Vec<bool>,
    dimensions: &Dimensions,
    i: usize,
    direction: Direction,
) -> (moved: bool)
    requires
        i < old(objects).len(),
        old(objects)[i as int].movable is Some,
        mask@ == stationary(old(objects)@),
    ensures
        moved == step_succeeds(old(objects)@, *dimensions, i as int, direction),
        moved ==> final(objects)@ == after_step(old(objects)@, *dimensions, i as int, direction),
        !moved ==> final(objects)@ == old(objects)@,
        final(objects).len() == old(objects).len(),
        stationary(final(objects)@) == stationary(old(objects)@),
{
    let ghost before = objects@;
    let mut position: Position = objects[i].position;
    let moved = move_among(objects, mask, &mut position, direction.to_delta(), dimensions, false);
    if moved {
        let mut object: GridObject = objects[i];
        assert(object == before[i as int]);
        object.position = position;
        object.direction = Some(direction);
        objects.set(i, object);
        assert(stationary(objects@) =~= stationary(before));
    }
    moved
}

fn turn(objects: &mut Vec<GridObject>, i: usize, direction: Direction)
    requires
        i < old(objects).len(),
    ensures
        final(objects)@ == turned(old(objects)@, i as int, direction),
        stationary(final(objects)@) == stationary(old(objects)@),
{
    let mut object: GridObject = objects[i];
    object.direction = Some(direction);
    objects.set(i, object);
    assert(stationary(objects@) =~= stationary(old(objects)@));
}

/// Gives every object that moves by itself its turn, in order. It is for the
/// caller to wait for the movement tick.
pub fn move_objects(objects: &mut Vec<GridObject>, dimensions: &Dimensions)
    ensures
        final(objects)@ == moved_upto(old(objects)@, *dimensions, old(objects).len() as int),
{
    let n: usize = objects.len();
    let mask = stationary_mask(objects);
    let ghost before = objects@;
    let mut i: usize = 0;
    while i < n
        invariant
            i <= n,
            n == objects.len(),
            mask@ == stationary(objects@),
            objects@ == moved_upto(before, *dimensions, i as int),
        decreases n - i,
    {
        let object: GridObject = objects[i];
        match (object.movable, object.direction) {
            (Some(Movable::Bounce), Some(direction)) => {
                if !step(objects, &mask, dimensions, i, direction) {
                    turn(objects, i, direction.inverse());
                }
            },
            (Some(Movable::FollowRightHand), Some(direction)) => {
                if !step(objects, &mask, dimensions, i, direction.right_hand()) {
                    if !step(objects, &mask, dimensions, i, direction) {
                        turn(objects, i, direction.left_hand());
                    }
                }
            },
            _ => {},
        }
        i += 1;
    }
}

/// Whether the object works as a transporter: it is one, faces a direction
/// and can block movement.
pub open spec fn is_transporter(object: GridObject) -> bool {
    object.transporter && object.direction is Some && object.blocks_movement is Some
}

/// For each object, whether transporter `t` could convey it: it is no
/// transporter, stands on `t` and was not conveyed in this tick.
pub open spec fn riders(objects: Seq<GridObject>, t: int, conveyed: Seq<bool>) -> Seq<bool> {
    Seq::new(
        objects.len(),
        |j: int|
            !objects[j].transporter && objects[j].position == objects[t].position
                && !conveyed[j],
    )
}

/// For each object, whether it can stand in the way of what transporter `t`
/// conveys: it is no transporter and does not stand on `t`.
pub open spec fn bystanders(objects: Seq<GridObject>, t: int) -> Seq<bool> {
    Seq::new(
        objects.len(),
        |j: int| !objects[j].transporter && objects[j].position != objects[t].position,
    )
}

/// The objects, and which of them were conveyed, after `objects[t]` had its
/// turn as a transporter.
///
/// A transporter conveys the first object that stands on it and was not
/// conveyed in this tick: the object takes one step the way the transporter
/// faces, without pushing, among the objects that are no transporters and do
/// not stand on it; it then counts as conveyed. If the object cannot take
/// the step, the transporter stops blocking movement.
pub open spec fn transporter_step(
    objects: Seq<GridObject>,
    conveyed: Seq<bool>,
    dimensions: Dimensions,
    t: int,
) -> (Seq<GridObject>, Seq<bool>) {
    let r = first_marked(riders(objects, t, conveyed), 0);
    if !is_transporter(objects[t]) || r >= objects.len() {
        (objects, conveyed)
    } else {
        let delta = objects[t].direction->0.spec_to_delta();
        if attempt_succeeds(
            objects,
            bystanders(objects, t),
            objects[r].position,
            delta,
            dimensions,
            false,
        ) {
            (
                after_attempt(
                    objects,
                    bystanders(objects, t),
                    objects[r].position,
                    delta,
                    dimensions,
                    false,
                ).update(
                    r,
                    GridObject { position: shifted(objects[r].position, delta), ..objects[r] },
                ),
                conveyed.update(r, true),
            )
        } else {
            (
                objects.update(
                    t,
                    GridObject {
                        blocks_movement: Some(BlocksMovement::Disabled),
                        ..objects[t]
                    },
                ),
                conveyed,
            )
        }
    }
}

/// The objects, and which of them were conveyed, after the first `k` objects
/// had their turn as transporters, one after the other.
pub open spec fn transported_upto(
    objects: Seq<GridObject>,
    dimensions: Dimensions,
    k: int,
) -> (Seq<GridObject>, Seq<bool>)
    decreases k,
{
    if k <= 0 {
        (objects, Seq::new(objects.len(), |j: int| false))
    } else {
        let (so_far, conveyed) = transported_upto(objects, dimensions, k - 1);
        transporter_step(so_far, conveyed, dimensions, k - 1)
    }
}

fn transporter_masks(objects: &Vec<GridObject>, conveyed: &Vec<bool>, t: usize) -> (masks: (
    Vec<bool>,
    Vec<bool>,
))
    requires
        t < objects.len(),
        conveyed.len() == objects.len(),
    ensures
        masks.0@ == riders(objects@, t as int, conveyed@),
        masks.1@ == bystanders(objects@, t as int),
{
    let transporter: GridObject = objects[t];
    let n: usize = objects.len();
    let mut on_it: Vec<bool> = Vec::new();
    let mut around: Vec<bool> = Vec::new();
    let mut j: usize = 0;
    while j < n
        invariant
            j <= n,
            t < n,
            n == objects.len(),
            n == conveyed.len(),
            transporter == objects[t as int],
            on_it.len() == j,
            around.len() == j,
            forall|m: int| 0 <= m < j ==> on_it[m] == riders(objects@, t as int, conveyed@)[m],
            forall|m: int| 0 <= m < j ==> around[m] == bystanders(objects@, t as int)[m],
        decreases n - j,
    {
        let object = &objects[j];
        let same: bool = object.shares_cell(&transporter);
        on_it.push(!object.transporter && same && !conveyed[j]);
        around.push(!object.transporter && !same);
        j += 1;
    }
    assert(on_it@ =~= riders(objects@, t as int, conveyed@));
    assert(around@ =~= bystanders(objects@, t as int));
    (on_it, around)
}

fn convey(
    objects: &mut Vec<GridObject>,
    conveyed: &mut Vec<bool>,
    dimensions: &Dimensions,
    t: usize,
)
    requires
        t < old(objects).len(),
        old(conveyed).len() == old(objects).len(),
    ensures
        (final(objects)@, final(conveyed)@) == transporter_step(
            old(objects)@,
            old(conveyed)@,
            *dimensions,
            t as int,
        ),
        final(objects).len() == old(objects).len(),
        final(conveyed).len() == old(conveyed).len(),
{
    let transporter: GridObject = objects[t];
    let n: usize = objects.len();
    let direction: Direction = match (
        transporter.transporter,
        transporter.direction,
        transporter.blocks_movement,
    ) {
        (true, Some(direction), Some(_)) => direction,
        _ => {
            return ;
        },
    };
    let (on_it, around) = transporter_masks(objects, conveyed, t);
    let r: usize = find_marked(&on_it);
    if r >= n {
        return ;
    }
    let ghost here = objects@;
    let mut position: Position = objects[r].position;
    if move_among(objects, &around, &mut position, direction.to_delta(), dimensions, false) {
        let mut rider: GridObject = objects[r];
        assert(rider == here[r as int]);
        rider.position = position;
        objects.set(r, rider);
        conveyed.set(r, true);
    } else {
        let mut stuck: GridObject = objects[t];
        stuck.blocks_movement = Some(BlocksMovement::Disabled);
        objects.set(t, stuck);
    }
}

/// Gives every transporter its turn, in order. It is for the caller to wait
/// for the transporter tick.
pub fn check_for_transporter(objects: &mut Vec<GridObject>, dimensions: &Dimensions)
    ensures
        final(objects)@ == transported_upto(
            old(objects)@,
            *dimensions,
            old(objects).len() as int,
        ).0,
{
    let n: usize = objects.len();
    let ghost before = objects@;
    let mut conveyed: Vec<bool> = Vec::new();
    let mut i: usize = 0;
    while i < n
        invariant
            i <= n,
            conveyed.len() == i,
            forall|j: int| 0 <= j < i ==> !conveyed[j],
        decreases n - i,
    {
        conveyed.push(false);
        i += 1;
    }
    assert(conveyed@ =~= Seq::new(before.len(), |j: int| false));
    let mut t: usize = 0;
    while t < n
        invariant
            t <= n,
            n == objects.len(),
            n == conveyed.len(),
            (objects@, conveyed@) == transported_upto(before, *dimensions, t as int),
        decreases n - t,
    {
        convey(objects, &mut conveyed, dimensions, t);
        t += 1;
    }
}

/// A bouncing object turns round exactly when it cannot take its step: if
/// it can, it stands one step further and faces as before; if it cannot, it
/// stands where it stood and faces the other way. Either way it stays on
/// the grid if it was on it.
pub proof fn lemma_bounce(
    objects: Seq<GridObject>,
    dimensions: Dimensions,
    i: int,
    direction: Direction,
)
    requires
        0 <= i < objects.len(),
        objects[i].movable == Some(Movable::Bounce),
        objects[i].direction == Some(direction),
    ensures
        mover_step(objects, dimensions, i).len() == objects.len(),
        mover_step(objects, dimensions, i)[i] == (if step_succeeds(
            objects,
            dimensions,
            i,
            direction,
        ) {
            GridObject {
                position: shifted(objects[i].position, direction.spec_to_delta()),
                ..objects[i]
            }
        } else {
            GridObject { direction: Some(direction.spec_inverse()), ..objects[i] }
        }),
        objects[i].on_grid(dimensions) ==> mover_step(objects, dimensions, i)[i].on_grid(
            dimensions,
        ),
{
    let delta = direction.spec_to_delta();
    let after = mover_step(objects, dimensions, i);
    if step_succeeds(objects, dimensions, i, direction) {
        let others = after_attempt(
            objects,
            stationary(objects),
            objects[i].position,
            delta,
            dimensions,
            false,
        );
        assert(others.len() == objects.len());
        assert(after == after_step(objects, dimensions, i, direction));
        assert(dimensions.contains(objects[i].position.x + delta.0, objects[i].position.y + delta.1));
        assert(after[i].position == shifted(objects[i].position, delta));
    } else {
        assert(after == turned(objects, i, direction.spec_inverse()));
    }
}

} // verus!
