//! Movement and push resolution: whether an object can take one step, and
//! what the step displaces.

use vstd::prelude::*;

use crate::game_object::components::{BlocksMovement, Position};
use crate::level::Dimensions;

verus! {

/// What the movement rules read of an object other than the one that moves.
#[derive(Clone, Copy, Debug, PartialEq, Eq, Structural)]
pub struct CollisionObject {
    pub position: Position,
    /// May be displaced by a push.
    pub pushable: bool,
    /// Keeps others from entering its cell.
    pub massive: bool,
    /// Rejects being pushed on, massive or not.
    pub blocks_pushes: bool,
    /// Set for objects that can hold whatever stands on them in place.
    pub blocks_movement: Option<BlocksMovement>,
}

/// Whether `delta` is one step up, right, down or left.
pub open spec fn is_unit_delta(delta: (i16, i16)) -> bool {
    ||| delta == (0i16, -1i16)
    ||| delta == (1i16, 0i16)
    ||| delta == (0i16, 1i16)
    ||| delta == (-1i16, 0i16)
}

/// Whether `position` lies at `(x, y)` or beyond it in the direction of
/// `delta`, in the same row or column.
pub open spec fn on_ray(position: Position, x: int, y: int, delta: (i16, i16)) -> bool {
    if delta.0 > 0 {
        position.x >= x && position.y == y
    } else if delta.0 < 0 {
        position.x <= x && position.y == y
    } else if delta.1 > 0 {
        position.x == x && position.y >= y
    } else if delta.1 < 0 {
        position.x == x && position.y <= y
    } else {
        false
    }
}

/// The Manhattan distance from `position` to `(x, y)`.
pub open spec fn distance(position: Position, x: int, y: int) -> int {
    (if position.x >= x { position.x - x } else { x - position.x })
    + (if position.y >= y { position.y - y } else { y - position.y })
}

impl CollisionObject {
    /// Whether the object stands on the cell `(x, y)`.
    pub open spec fn at(self, x: int, y: int) -> bool {
        self.position.x == x && self.position.y == y
    }

    /// Whether the object keeps a pushed object out of its cell.
    pub open spec fn obstructs_push(self) -> bool {
        self.pushable || self.massive || self.blocks_pushes
    }

    /// Whether a move of `mover` by `delta` has to consider the object: it
    /// shares the mover's cell, or stands at the destination or beyond it.
    pub open spec fn is_candidate(self, mover: Position, delta: (i16, i16)) -> bool {
        self.position == mover
        || on_ray(self.position, mover.x + delta.0, mover.y + delta.1, delta)
    }
}

/// Whether a pushed object may enter the cell `(x, y)`: the cell is on the
/// grid and nothing on it is pushable, massive or blocks pushes.
pub open spec fn can_push_to(
    objects: Seq<CollisionObject>,
    dimensions: Dimensions,
    x: int,
    y: int,
) -> bool {
    &&& dimensions.contains(x, y)
    &&& forall|i: int|
        0 <= i < objects.len() && (#[trigger] objects[i]).at(x, y) ==> !objects[i].obstructs_push()
}

/// Whether something with enabled movement blocking shares the mover's cell
/// and so holds it in place.
pub open spec fn held_in_place(objects: Seq<CollisionObject>, mover: Position) -> bool {
    exists|i: int|
        0 <= i < objects.len() && (#[trigger] objects[i]).position == mover
            && objects[i].blocks_movement == Some(BlocksMovement::Enabled)
}

/// Whether the move displaces `object`: pushing is enabled, the object is
/// pushable and stands at the destination, and the cell beyond is free.
pub open spec fn is_pushed(
    object: CollisionObject,
    mover: Position,
    delta: (i16, i16),
    dimensions: Dimensions,
    objects: Seq<CollisionObject>,
    can_push: bool,
) -> bool {
    &&& can_push
    &&& object.pushable
    &&& object.at(mover.x + delta.0, mover.y + delta.1)
    &&& can_push_to(objects, dimensions, mover.x + 2 * delta.0, mover.y + 2 * delta.1)
}

/// Whether `object` keeps the mover out of the destination: it stands there,
/// is massive and is not pushed away.
pub open spec fn blocks_entry(
    object: CollisionObject,
    mover: Position,
    delta: (i16, i16),
    dimensions: Dimensions,
    objects: Seq<CollisionObject>,
    can_push: bool,
) -> bool {
    &&& object.at(mover.x + delta.0, mover.y + delta.1)
    &&& object.massive
    &&& !is_pushed(object, mover, delta, dimensions, objects, can_push)
}

/// Whether the move takes place: the destination is on the grid, nothing
/// holds the mover in place, and nothing keeps it out of the destination.
pub open spec fn move_succeeds(
    mover: Position,
    delta: (i16, i16),
    dimensions: Dimensions,
    objects: Seq<CollisionObject>,
    can_push: bool,
) -> bool {
    &&& dimensions.contains(mover.x + delta.0, mover.y + delta.1)
    &&& !held_in_place(objects, mover)
    &&& forall|i: int|
        0 <= i < objects.len() ==> !blocks_entry(
            #[trigger] objects[i],
            mover,
            delta,
            dimensions,
            objects,
            can_push,
        )
}

/// Whether `objects[i]` is the nearest candidate of the move: no candidate is
/// closer to the destination, and none as close comes earlier in `objects`.
pub open spec fn is_nearest(
    objects: Seq<CollisionObject>,
    mover: Position,
    delta: (i16, i16),
    i: int,
) -> bool {
    let x = mover.x + delta.0;
    let y = mover.y + delta.1;
    &&& 0 <= i < objects.len()
    &&& objects[i].is_candidate(mover, delta)
    &&& forall|j: int|
        0 <= j < objects.len() && (#[trigger] objects[j]).is_candidate(mover, delta) ==> {
            ||| distance(objects[j].position, x, y) > distance(objects[i].position, x, y)
            ||| distance(objects[j].position, x, y) == distance(objects[i].position, x, y) && j
                >= i
        }
}

/// `objects[i]` after a move that took place: shifted by `delta` if it was
/// pushed, and with its movement blocking enabled if it is the nearest
/// candidate and can block movement at all.
pub open spec fn object_after_move(
    objects: Seq<CollisionObject>,
    i: int,
    mover: Position,
    delta: (i16, i16),
    dimensions: Dimensions,
    can_push: bool,
) -> CollisionObject {
    let object = objects[i];
    CollisionObject {
        position: if is_pushed(object, mover, delta, dimensions, objects, can_push) {
            Position {
                x: (object.position.x + delta.0) as i16,
                y: (object.position.y + delta.1) as i16,
            }
        } else {
            object.position
        },
        blocks_movement: if is_nearest(objects, mover, delta, i) && object.blocks_movement
            is Some {
            Some(BlocksMovement::Enabled)
        } else {
            object.blocks_movement
        },
        ..object
    }
}

/// The other objects after a move that took place.
pub open spec fn objects_after_move(
    objects: Seq<CollisionObject>,
    mover: Position,
    delta: (i16, i16),
    dimensions: Dimensions,
    can_push: bool,
) -> Seq<CollisionObject> {
    Seq::new(
        objects.len(),
        |i: int| object_after_move(objects, i, mover, delta, dimensions, can_push),
    )
}

/// Whether every object of `objects` stands on the grid.
pub open spec fn all_on_grid(objects: Seq<CollisionObject>, dimensions: Dimensions) -> bool {
    forall|i: int|
        0 <= i < objects.len() ==> dimensions.contains(
            (#[trigger] objects[i]).position.x as int,
            objects[i].position.y as int,
        )
}

fn candidate(object: &CollisionObject, mover: &Position, delta: (i16, i16)) -> (r: bool)
    requires
        is_unit_delta(delta),
    ensures
        r == object.is_candidate(*mover, delta),
{
    let x: i32 = mover.x as i32 + delta.0 as i32;
    let y: i32 = mover.y as i32 + delta.1 as i32;
    let px: i32 = object.position.x as i32;
    let py: i32 = object.position.y as i32;
    (object.position.x == mover.x && object.position.y == mover.y) || if delta.0 > 0 {
        px >= x && py == y
    } else if delta.0 < 0 {
        px <= x && py == y
    } else if delta.1 > 0 {
        px == x && py >= y
    } else if delta.1 < 0 {
        px == x && py <= y
    } else {
        false
    }
}

fn distance_to(position: &Position, x: i32, y: i32) -> (d: i32)
    requires
        i16::MIN <= x <= i16::MAX + 1,
        i16::MIN <= y <= i16::MAX + 1,
    ensures
        d == distance(*position, x as int, y as int),
{
    let px: i32 = position.x as i32;
    let py: i32 = position.y as i32;
    let dx: i32 = if px >= x { px - x } else { x - px };
    let dy: i32 = if py >= y { py - y } else { y - py };
    dx + dy
}

/// What one pass over the other objects finds out about a move.
struct Survey {
    held: bool,
    beyond_free: bool,
    nearest: Option<usize>,
}

fn survey(
    mover: &Position,
    delta: (i16, i16),
    dimensions: &Dimensions,
    objects: &Vec<CollisionObject>,
) -> (s: Survey)
    requires
        is_unit_delta(delta),
        dimensions.contains(mover.x + delta.0, mover.y + delta.1),
    ensures
        s.held == held_in_place(objects@, *mover),
        s.beyond_free == can_push_to(
            objects@,
            *dimensions,
            mover.x + 2 * delta.0,
            mover.y + 2 * delta.1,
        ),
        match s.nearest {
            Some(n) => is_nearest(objects@, *mover, delta, n as int),
            None => forall|i: int|
                0 <= i < objects.len() ==> !(#[trigger] objects[i]).is_candidate(*mover, delta),
        },
{
    let x: i32 = mover.x as i32 + delta.0 as i32;
    let y: i32 = mover.y as i32 + delta.1 as i32;
    let bx: i32 = x + delta.0 as i32;
    let by: i32 = y + delta.1 as i32;
    let mut held: bool = false;
    let mut obstructed: bool = false;
    let mut nearest: Option<usize> = None;
    let mut best: i32 = 0;
    let mut i: usize = 0;
    while i < objects.len()
        invariant
            i <= objects.len(),
            is_unit_delta(delta),
            x == mover.x + delta.0,
            y == mover.y + delta.1,
            bx == mover.x + 2 * delta.0,
            by == mover.y + 2 * delta.1,
            1 <= x <= i16::MAX,
            1 <= y <= i16::MAX,
            held == held_in_place(objects@.take(i as int), *mover),
            obstructed == exists|j: int|
                0 <= j < i && (#[trigger] objects[j]).at(bx as int, by as int)
                    && objects[j].obstructs_push(),
            match nearest {
                Some(n) => n < i && best == distance(objects[n as int].position, x as int, y as int)
                    && is_nearest(objects@.take(i as int), *mover, delta, n as int),
                None => forall|j: int|
                    0 <= j < i ==> !(#[trigger] objects[j]).is_candidate(*mover, delta),
            },
        decreases objects.len() - i,
    {
        let object = &objects[i];
        let ghost before = objects@.take(i as int);
        let ghost after = objects@.take(i + 1);
        assert(before == after.take(i as int));
        assert(forall|j: int| 0 <= j < i ==> before[j] == after[j]);
        assert(after[i as int] == objects[i as int]);
        if object.position.x == mover.x && object.position.y == mover.y {
            match object.blocks_movement {
                Some(BlocksMovement::Enabled) => {
                    held = true;
                },
                _ => {},
            }
        }
        assert(held == held_in_place(after, *mover)) by {
            if held_in_place(before, *mover) {
                let j = choose|j: int|
                    0 <= j < before.len() && (#[trigger] before[j]).position == *mover
                        && before[j].blocks_movement == Some(BlocksMovement::Enabled);
                assert(after[j].position == *mover);
            }
            if held_in_place(after, *mover) && !held {
                let j = choose|j: int|
                    0 <= j < after.len() && (#[trigger] after[j]).position == *mover
                        && after[j].blocks_movement == Some(BlocksMovement::Enabled);
                assert(before[j].position == *mover);
            }
        }
        if object.position.x as i32 == bx && object.position.y as i32 == by && (object.pushable
            || object.massive || object.blocks_pushes) {
            obstructed = true;
        }
        if candidate(object, mover, delta) {
            let d: i32 = distance_to(&object.position, x, y);
            let closer: bool = match nearest {
                Some(_) => d < best,
                None => true,
            };
            if closer {
                nearest = Some(i);
                best = d;
            }
        }
        i += 1;
    }
    assert(objects@.take(i as int) == objects@);
    Survey { held, beyond_free: dimensions.holds(bx, by) && !obstructed, nearest }
}

/// Tries to move the object at `object_position` one step by `delta`.
///
/// The move takes place if the destination is on the grid, nothing with
/// enabled movement blocking shares the mover's cell, and every massive object
/// at the destination can be pushed one cell further: pushing is enabled, the
/// object is pushable, and the cell beyond it is on the grid and holds nothing
/// pushable, massive or push-blocking. Then every pushable object at the
/// destination is shifted by `delta`, the mover enters the destination, and
/// the candidate nearest to the destination (the earliest of several) has its
/// movement blocking enabled if it has any. Otherwise nothing changes.
pub fn move_object(
    object_position: &mut Position,
    delta: (i16, i16),
    dimensions: &Dimensions,
    collision_objects: &mut Vec<CollisionObject>,
    can_push: bool,
) -> (moved: bool)
    requires
        is_unit_delta(delta),
    ensures
        moved == move_succeeds(
            *old(object_position),
            delta,
            *dimensions,
            old(collision_objects)@,
            can_push,
        ),
        moved ==> final(object_position).x == old(object_position).x + delta.0
            && final(object_position).y == old(object_position).y + delta.1,
        moved ==> final(collision_objects)@ == objects_after_move(
            old(collision_objects)@,
            *old(object_position),
            delta,
            *dimensions,
            can_push,
        ),
        !moved ==> *final(object_position) == *old(object_position),
        !moved ==> final(collision_objects)@ == old(collision_objects)@,
        dimensions.contains(old(object_position).x as int, old(object_position).y as int)
            ==> dimensions.contains(
            final(object_position).x as int,
            final(object_position).y as int,
        ),
        all_on_grid(old(collision_objects)@, *dimensions) ==> all_on_grid(
            final(collision_objects)@,
            *dimensions,
        ),
{
    let mover: Position = *object_position;
    let x: i32 = mover.x as i32 + delta.0 as i32;
    let y: i32 = mover.y as i32 + delta.1 as i32;
    if !dimensions.holds(x, y) {
        return false;
    }
    let found = survey(&mover, delta, dimensions, collision_objects);
    if found.held {
        return false;
    }
    let pushing: bool = can_push && found.beyond_free;
    let ghost before = collision_objects@;
    let n: usize = collision_objects.len();
    let mut i: usize = 0;
    while i < n
        invariant
            i <= n,
            n == collision_objects.len(),
            collision_objects@ == before,
            before == old(collision_objects)@,
            mover == *old(object_position),
            *object_position == mover,
            x == mover.x + delta.0,
            y == mover.y + delta.1,
            pushing == (can_push && can_push_to(
                before,
                *dimensions,
                mover.x + 2 * delta.0,
                mover.y + 2 * delta.1,
            )),
            forall|j: int|
                0 <= j < i ==> !blocks_entry(
                    #[trigger] before[j],
                    mover,
                    delta,
                    *dimensions,
                    before,
                    can_push,
                ),
        decreases n - i,
    {
        let object = &collision_objects[i];
        if object.position.x as i32 == x && object.position.y as i32 == y && object.massive && !(
        pushing && object.pushable) {
            assert(blocks_entry(before[i as int], mover, delta, *dimensions, before, can_push));
            return false;
        }
        i += 1;
    }
    i = 0;
    while i < n
        invariant
            i <= n,
            n == collision_objects.len(),
            n == before.len(),
            is_unit_delta(delta),
            x == mover.x + delta.0,
            y == mover.y + delta.1,
            dimensions.contains(x as int, y as int),
            pushing == (can_push && can_push_to(
                before,
                *dimensions,
                mover.x + 2 * delta.0,
                mover.y + 2 * delta.1,
            )),
            match found.nearest {
                Some(m) => is_nearest(before, mover, delta, m as int),
                None => forall|j: int|
                    0 <= j < before.len() ==> !(#[trigger] before[j]).is_candidate(mover, delta),
            },
            forall|j: int|
                0 <= j < i ==> collision_objects@[j] == object_after_move(
                    before,
                    j,
                    mover,
                    delta,
                    *dimensions,
                    can_push,
                ),
            forall|j: int| i <= j < n ==> collision_objects@[j] == before[j],
        decreases n - i,
    {
        let mut object: CollisionObject = collision_objects[i];
        if pushing && object.pushable && object.position.x as i32 == x && object.position.y as i32
            == y {
            object.position = Position {
                x: (x + delta.0 as i32) as i16,
                y: (y + delta.1 as i32) as i16,
            };
        }
        let first: bool = match found.nearest {
            Some(m) => m == i,
            None => false,
        };
        assert(first == is_nearest(before, mover, delta, i as int));
        if first && object.blocks_movement.is_some() {
            object.blocks_movement = Some(BlocksMovement::Enabled);
        }
        collision_objects.set(i, object);
        i += 1;
    }
    object_position.x = x as i16;
    object_position.y = y as i16;
    assert(collision_objects@ =~= objects_after_move(before, mover, delta, *dimensions, can_push));
    true
}

/// Whether `chain` is a row of `n` pushable objects in front of the mover:
/// the first at the destination of the move, each further one a step behind
/// the one before.
pub open spec fn is_chain(
    chain: Seq<CollisionObject>,
    mover: Position,
    delta: (i16, i16),
    n: nat,
) -> bool {
    &&& chain.len() == n
    &&& forall|k: int|
        0 <= k < n ==> (#[trigger] chain[k]).pushable && chain[k].at(
            mover.x + (k + 1) * delta.0,
            mover.y + (k + 1) * delta.1,
        )
}

/// Pushing in open space: a mover on the grid that pushes, with nothing in
/// front of it or one pushable object and a free cell of the grid behind
/// that, takes its step, and the object is shifted by the same step.
///
/// A row of two or more objects is not pushed: the second keeps the first
/// from being displaced.
pub proof fn lemma_push_in_open_space(
    mover: Position,
    delta: (i16, i16),
    dimensions: Dimensions,
    chain: Seq<CollisionObject>,
    n: nat,
)
    requires
        is_unit_delta(delta),
        is_chain(chain, mover, delta, n),
        n <= 1,
        dimensions.contains(mover.x as int, mover.y as int),
        dimensions.contains(mover.x + (n + 1) * delta.0, mover.y + (n + 1) * delta.1),
    ensures
        move_succeeds(mover, delta, dimensions, chain, true),
        forall|k: int|
            0 <= k < n ==> (#[trigger] objects_after_move(
                chain,
                mover,
                delta,
                dimensions,
                true,
            )[k]).position == (Position {
                x: (chain[k].position.x + delta.0) as i16,
                y: (chain[k].position.y + delta.1) as i16,
            }),
{
    if n == 1 {
        assert(chain[0].at(mover.x + delta.0, mover.y + delta.1));
        assert(can_push_to(chain, dimensions, mover.x + 2 * delta.0, mover.y + 2 * delta.1));
        assert(is_pushed(chain[0], mover, delta, dimensions, chain, true));
    }
}

/// Pushing against a massive object: a row of massive pushable objects with
/// a massive object that cannot be pushed right behind it keeps the mover
/// where it is, whether it pushes or not.
pub proof fn lemma_push_against_massive(
    mover: Position,
    delta: (i16, i16),
    dimensions: Dimensions,
    chain: Seq<CollisionObject>,
    n: nat,
    wall: CollisionObject,
    can_push: bool,
)
    requires
        is_unit_delta(delta),
        is_chain(chain, mover, delta, n),
        forall|k: int| 0 <= k < n ==> (#[trigger] chain[k]).massive,
        wall.massive,
        !wall.pushable,
        wall.at(mover.x + (n + 1) * delta.0, mover.y + (n + 1) * delta.1),
    ensures
        !move_succeeds(mover, delta, dimensions, chain.push(wall), can_push),
{
    let objects = chain.push(wall);
    if n == 0 {
        assert((n + 1) * delta.0 == delta.0 && (n + 1) * delta.1 == delta.1) by (nonlinear_arith)
            requires
                n == 0,
        ;
        assert(objects[0] == wall);
        assert(blocks_entry(objects[0], mover, delta, dimensions, objects, can_push));
    } else {
        assert(objects[0] == chain[0]);
        assert(objects[1] == if n == 1 {
            wall
        } else {
            chain[1]
        });
        assert(n == 1 ==> (n + 1) * delta.0 == 2 * delta.0 && (n + 1) * delta.1 == 2 * delta.1)
            by (nonlinear_arith);
        assert(objects[1].at(mover.x + 2 * delta.0, mover.y + 2 * delta.1));
        assert(objects[1].obstructs_push());
        assert(!can_push_to(objects, dimensions, mover.x + 2 * delta.0, mover.y + 2 * delta.1));
        assert(blocks_entry(objects[0], mover, delta, dimensions, objects, can_push));
    }
}

/// A move leaves nothing off the grid: the destination of a move that takes
/// place is on the grid, and so is every object that the move displaces.
/// Objects that were on the grid are on it after the move.
pub proof fn lemma_move_stays_on_grid(
    mover: Position,
    delta: (i16, i16),
    dimensions: Dimensions,
    objects: Seq<CollisionObject>,
    can_push: bool,
)
    requires
        is_unit_delta(delta),
    ensures
        move_succeeds(mover, delta, dimensions, objects, can_push) ==> dimensions.contains(
            mover.x + delta.0,
            mover.y + delta.1,
        ),
        forall|i: int|
            0 <= i < objects.len() && is_pushed(
                #[trigger] objects[i],
                mover,
                delta,
                dimensions,
                objects,
                can_push,
            ) ==> dimensions.contains(
                objects_after_move(objects, mover, delta, dimensions, can_push)[i].position.x
                    as int,
                objects_after_move(objects, mover, delta, dimensions, can_push)[i].position.y
                    as int,
            ),
        all_on_grid(objects, dimensions) ==> all_on_grid(
            objects_after_move(objects, mover, delta, dimensions, can_push),
            dimensions,
        ),
{
    let after = objects_after_move(objects, mover, delta, dimensions, can_push);
    assert forall|i: int| 0 <= i < objects.len() implies (is_pushed(
        #[trigger] objects[i],
        mover,
        delta,
        dimensions,
        objects,
        can_push,
    ) ==> dimensions.contains(after[i].position.x as int, after[i].position.y as int)) && (
    !is_pushed(objects[i], mover, delta, dimensions, objects, can_push) ==> after[i].position
        == objects[i].position) by {}
    if all_on_grid(objects, dimensions) {
        assert forall|i: int| 0 <= i < after.len() implies dimensions.contains(
            (#[trigger] after[i]).position.x as int,
            after[i].position.y as int,
        ) by {
            assert(dimensions.contains(
                objects[i].position.x as int,
                objects[i].position.y as int,
            ));
        }
    }
}

} // verus!
