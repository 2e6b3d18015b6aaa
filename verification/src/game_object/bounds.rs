//! Nothing leaves the grid: if every object stands on the grid, every
//! object still does after any move and any rule.

use vstd::prelude::*;

use crate::game_object::behaviors::{
    after_rules_and_pruning, deadlies, docked, explosions, explosives, gates_after, gone,
    graves, inert, kept, lasting, liquids, players, sinkers, splashes,
};
use crate::game_object::components::{Direction, Movable, Position};
use crate::game_object::contacts::{contact_effects, Effect};
use crate::game_object::movement::{
    all_on_grid, is_unit_delta, lemma_move_stays_on_grid, objects_after_move,
};
use crate::game_object::object_bundles::GridObject;
use crate::game_object::travel::{
    after_attempt, after_player_move, after_step, attempt_succeeds, bystanders,
    bystanders_of_player, first_marked, gathered, lemma_first_marked, lemma_gathered_len,
    lemma_rank_grows, lemma_rank_zero, moved_upto, mover_step, player_marks, player_moves, rank,
    riders, stationary, step_succeeds, transported_upto, transporter_step, turned,
};
use crate::level::Dimensions;
use crate::world::{after_movement, after_moves, faced};

verus! {

/// Whether every object stands on the grid.
pub open spec fn all_objects_on_grid(objects: Seq<GridObject>, dimensions: Dimensions) -> bool {
    forall|i: int| 0 <= i < objects.len() ==> (#[trigger] objects[i]).on_grid(dimensions)
}

/// What is gathered of objects on the grid stands on the grid.
proof fn lemma_gathered_on_grid(
    objects: Seq<GridObject>,
    mask: Seq<bool>,
    dimensions: Dimensions,
    k: int,
)
    requires
        all_objects_on_grid(objects, dimensions),
        k <= objects.len(),
    ensures
        all_on_grid(gathered(objects, mask, k), dimensions),
    decreases k,
{
    if k > 0 {
        lemma_gathered_on_grid(objects, mask, dimensions, k - 1);
        assert(objects[k - 1].on_grid(dimensions));
    }
}

/// An attempt to move among objects on the grid leaves them on the grid.
pub proof fn lemma_attempt_stays_on_grid(
    objects: Seq<GridObject>,
    mask: Seq<bool>,
    position: Position,
    delta: (i16, i16),
    dimensions: Dimensions,
    can_push: bool,
)
    requires
        is_unit_delta(delta),
        all_objects_on_grid(objects, dimensions),
    ensures
        after_attempt(objects, mask, position, delta, dimensions, can_push).len()
            == objects.len(),
        all_objects_on_grid(
            after_attempt(objects, mask, position, delta, dimensions, can_push),
            dimensions,
        ),
        attempt_succeeds(objects, mask, position, delta, dimensions, can_push)
            ==> dimensions.contains(position.x + delta.0, position.y + delta.1),
{
    let n = objects.len() as int;
    let others = gathered(objects, mask, n);
    let moved = objects_after_move(others, position, delta, dimensions, can_push);
    let after = after_attempt(objects, mask, position, delta, dimensions, can_push);
    lemma_gathered_on_grid(objects, mask, dimensions, n);
    lemma_gathered_len(objects, mask, n);
    lemma_move_stays_on_grid(position, delta, dimensions, others, can_push);
    if attempt_succeeds(objects, mask, position, delta, dimensions, can_push) {
        assert forall|i: int| 0 <= i < after.len() implies (#[trigger] after[i]).on_grid(
            dimensions,
        ) by {
            assert(objects[i].on_grid(dimensions));
            if mask[i] {
                lemma_rank_grows(mask, i, n);
                let r = rank(mask, i) as int;
                assert(dimensions.contains(moved[r].position.x as int, moved[r].position.y as int));
            }
        }
    }
}

/// A step of the player among objects on the grid leaves all on the grid.
pub proof fn lemma_player_stays_on_grid(
    objects: Seq<GridObject>,
    dimensions: Dimensions,
    delta: (i16, i16),
)
    requires
        is_unit_delta(delta),
        all_objects_on_grid(objects, dimensions),
        player_moves(objects, dimensions, delta),
    ensures
        after_player_move(objects, dimensions, delta).len() == objects.len(),
        all_objects_on_grid(after_player_move(objects, dimensions, delta), dimensions),
{
    let p = first_marked(player_marks(objects), 0);
    lemma_first_marked(player_marks(objects), 0);
    if p >= objects.len() {
        lemma_rank_zero(player_marks(objects), objects.len() as int);
    }
    assert(objects[p].on_grid(dimensions));
    lemma_attempt_stays_on_grid(
        objects,
        bystanders_of_player(objects),
        objects[p].position,
        delta,
        dimensions,
        true,
    );
    let after = after_player_move(objects, dimensions, delta);
    let others = after_attempt(
        objects,
        bystanders_of_player(objects),
        objects[p].position,
        delta,
        dimensions,
        true,
    );
    assert forall|i: int| 0 <= i < after.len() implies (#[trigger] after[i]).on_grid(
        dimensions,
    ) by {
        if i != p {
            assert(others[i].on_grid(dimensions));
        }
    }
}

/// The steps of the player leave all objects on the grid.
pub proof fn lemma_moves_stay_on_grid(
    objects: Seq<GridObject>,
    dimensions: Dimensions,
    moves: Seq<Direction>,
    k: int,
)
    requires
        all_objects_on_grid(objects, dimensions),
        k <= moves.len(),
    ensures
        after_moves(objects, dimensions, moves, k).len() == objects.len(),
        all_objects_on_grid(after_moves(objects, dimensions, moves, k), dimensions),
    decreases k,
{
    if k > 0 {
        lemma_moves_stay_on_grid(objects, dimensions, moves, k - 1);
        let before = after_moves(objects, dimensions, moves, k - 1);
        let delta = moves[k - 1].spec_to_delta();
        if player_moves(before, dimensions, delta) {
            lemma_player_stays_on_grid(before, dimensions, delta);
        }
    }
}

/// A step that an object takes by itself leaves all objects on the grid.
pub proof fn lemma_step_stays_on_grid(
    objects: Seq<GridObject>,
    dimensions: Dimensions,
    i: int,
    direction: Direction,
)
    requires
        all_objects_on_grid(objects, dimensions),
        0 <= i < objects.len(),
        step_succeeds(objects, dimensions, i, direction),
    ensures
        after_step(objects, dimensions, i, direction).len() == objects.len(),
        all_objects_on_grid(after_step(objects, dimensions, i, direction), dimensions),
{
    lemma_attempt_stays_on_grid(
        objects,
        stationary(objects),
        objects[i].position,
        direction.spec_to_delta(),
        dimensions,
        false,
    );
    let others = after_attempt(
        objects,
        stationary(objects),
        objects[i].position,
        direction.spec_to_delta(),
        dimensions,
        false,
    );
    let after = after_step(objects, dimensions, i, direction);
    assert forall|j: int| 0 <= j < after.len() implies (#[trigger] after[j]).on_grid(
        dimensions,
    ) by {
        if j != i {
            assert(others[j].on_grid(dimensions));
        }
    }
}

/// An object that turns where it stands leaves all objects on the grid.
pub proof fn lemma_turn_stays_on_grid(
    objects: Seq<GridObject>,
    dimensions: Dimensions,
    i: int,
    direction: Direction,
)
    requires
        all_objects_on_grid(objects, dimensions),
        0 <= i < objects.len(),
    ensures
        turned(objects, i, direction).len() == objects.len(),
        all_objects_on_grid(turned(objects, i, direction), dimensions),
{
    let after = turned(objects, i, direction);
    assert forall|j: int| 0 <= j < after.len() implies (#[trigger] after[j]).on_grid(
        dimensions,
    ) by {
        assert(objects[j].on_grid(dimensions));
    }
}

/// The turn of an object that moves by itself leaves all objects on the
/// grid.
pub proof fn lemma_mover_stays_on_grid(
    objects: Seq<GridObject>,
    dimensions: Dimensions,
    i: int,
)
    requires
        all_objects_on_grid(objects, dimensions),
        0 <= i < objects.len(),
    ensures
        mover_step(objects, dimensions, i).len() == objects.len(),
        all_objects_on_grid(mover_step(objects, dimensions, i), dimensions),
{
    match (objects[i].movable, objects[i].direction) {
        (Some(Movable::Bounce), Some(direction)) => {
            if step_succeeds(objects, dimensions, i, direction) {
                lemma_step_stays_on_grid(objects, dimensions, i, direction);
            } else {
                lemma_turn_stays_on_grid(objects, dimensions, i, direction.spec_inverse());
            }
        },
        (Some(Movable::FollowRightHand), Some(direction)) => {
            if step_succeeds(objects, dimensions, i, direction.spec_right_hand()) {
                lemma_step_stays_on_grid(objects, dimensions, i, direction.spec_right_hand());
            } else if step_succeeds(objects, dimensions, i, direction) {
                lemma_step_stays_on_grid(objects, dimensions, i, direction);
            } else {
                lemma_turn_stays_on_grid(objects, dimensions, i, direction.spec_left_hand());
            }
        },
        _ => {},
    }
}

/// The turns of the objects that move by themselves leave all objects on
/// the grid.
pub proof fn lemma_movers_stay_on_grid(
    objects: Seq<GridObject>,
    dimensions: Dimensions,
    k: int,
)
    requires
        all_objects_on_grid(objects, dimensions),
        k <= objects.len(),
    ensures
        moved_upto(objects, dimensions, k).len() == objects.len(),
        all_objects_on_grid(moved_upto(objects, dimensions, k), dimensions),
    decreases k,
{
    if k > 0 {
        lemma_movers_stay_on_grid(objects, dimensions, k - 1);
        lemma_mover_stays_on_grid(moved_upto(objects, dimensions, k - 1), dimensions, k - 1);
    }
}

/// The turn of a transporter leaves all objects on the grid.
pub proof fn lemma_transporter_stays_on_grid(
    objects: Seq<GridObject>,
    conveyed: Seq<bool>,
    dimensions: Dimensions,
    t: int,
)
    requires
        all_objects_on_grid(objects, dimensions),
        0 <= t < objects.len(),
        conveyed.len() == objects.len(),
    ensures
        transporter_step(objects, conveyed, dimensions, t).0.len() == objects.len(),
        transporter_step(objects, conveyed, dimensions, t).1.len() == objects.len(),
        all_objects_on_grid(transporter_step(objects, conveyed, dimensions, t).0, dimensions),
{
    let mask = riders(objects, t, conveyed);
    let r = first_marked(mask, 0);
    lemma_first_marked(mask, 0);
    let after = transporter_step(objects, conveyed, dimensions, t).0;
    assert(objects[t].on_grid(dimensions));
    if objects[t].direction is Some && 0 <= r < objects.len() {
        let delta = objects[t].direction->0.spec_to_delta();
        lemma_attempt_stays_on_grid(
            objects,
            bystanders(objects, t),
            objects[r].position,
            delta,
            dimensions,
            false,
        );
        let others = after_attempt(
            objects,
            bystanders(objects, t),
            objects[r].position,
            delta,
            dimensions,
            false,
        );
        assert(after.len() == objects.len());
        assert forall|j: int| 0 <= j < after.len() implies (#[trigger] after[j]).on_grid(
            dimensions,
        ) by {
            assert(objects[j].on_grid(dimensions));
            assert(others[j].on_grid(dimensions));
        }
    }
}

/// The turns of the transporters leave all objects on the grid.
pub proof fn lemma_transporters_stay_on_grid(
    objects: Seq<GridObject>,
    dimensions: Dimensions,
    k: int,
)
    requires
        all_objects_on_grid(objects, dimensions),
        k <= objects.len(),
    ensures
        transported_upto(objects, dimensions, k).0.len() == objects.len(),
        transported_upto(objects, dimensions, k).1.len() == objects.len(),
        all_objects_on_grid(transported_upto(objects, dimensions, k).0, dimensions),
    decreases k,
{
    if k > 0 {
        lemma_transporters_stay_on_grid(objects, dimensions, k - 1);
        let (so_far, conveyed) = transported_upto(objects, dimensions, k - 1);
        lemma_transporter_stays_on_grid(so_far, conveyed, dimensions, k - 1);
    }
}

/// What stays of objects on the grid stands on the grid.
pub proof fn lemma_lasting_on_grid(objects: Seq<GridObject>, dimensions: Dimensions, k: int)
    requires
        all_objects_on_grid(objects, dimensions),
        k <= objects.len(),
    ensures
        all_objects_on_grid(lasting(objects, k), dimensions),
    decreases k,
{
    if k > 0 {
        lemma_lasting_on_grid(objects, dimensions, k - 1);
        assert(objects[k - 1].on_grid(dimensions));
    }
}

/// What is kept of objects on the grid stands on the grid.
pub proof fn lemma_kept_on_grid(
    objects: Seq<GridObject>,
    removed: Seq<bool>,
    dimensions: Dimensions,
    k: int,
)
    requires
        all_objects_on_grid(objects, dimensions),
        k <= objects.len(),
    ensures
        all_objects_on_grid(kept(objects, removed, k), dimensions),
    decreases k,
{
    if k > 0 {
        lemma_kept_on_grid(objects, removed, dimensions, k - 1);
        assert(objects[k - 1].on_grid(dimensions));
    }
}

/// The effects of contacts between objects on the grid appear on the grid.
pub proof fn lemma_effects_on_grid(
    objects: Seq<GridObject>,
    outer: Seq<bool>,
    inner: Seq<bool>,
    effect: Effect,
    dimensions: Dimensions,
    k: int,
)
    requires
        all_objects_on_grid(objects, dimensions),
        k <= objects.len(),
    ensures
        all_objects_on_grid(contact_effects(objects, outer, inner, effect, k), dimensions),
    decreases k,
{
    if k > 0 {
        lemma_effects_on_grid(objects, outer, inner, effect, dimensions, k - 1);
        assert(objects[k - 1].on_grid(dimensions));
    }
}

/// The interaction rules leave all objects on the grid.
pub proof fn lemma_rules_stay_on_grid(
    objects: Seq<GridObject>,
    recorded: usize,
    effects_due: bool,
    dimensions: Dimensions,
)
    requires
        all_objects_on_grid(objects, dimensions),
    ensures
        all_objects_on_grid(after_rules_and_pruning(objects, recorded, effects_due), dimensions),
{
    let n = objects.len() as int;
    let settled = docked(gates_after(objects, recorded));
    assert forall|i: int| 0 <= i < settled.len() implies (#[trigger] settled[i]).on_grid(
        dimensions,
    ) by {
        assert(objects[i].on_grid(dimensions));
    }
    lemma_kept_on_grid(settled, gone(objects, effects_due), dimensions, n);
    lemma_effects_on_grid(
        objects,
        players(objects),
        deadlies(objects),
        Effect::Grave,
        dimensions,
        n,
    );
    lemma_effects_on_grid(
        objects,
        explosives(objects),
        inert(objects),
        Effect::Explosion,
        dimensions,
        n,
    );
    lemma_effects_on_grid(
        objects,
        liquids(objects),
        sinkers(objects),
        Effect::Splash,
        dimensions,
        n,
    );
    let rest = kept(settled, gone(objects, effects_due), n);
    let after = after_rules_and_pruning(objects, recorded, effects_due);
    assert forall|i: int| 0 <= i < after.len() implies (#[trigger] after[i]).on_grid(
        dimensions,
    ) by {
        let a = rest.len() as int;
        let b = a + graves(objects).len();
        let c = b + explosions(objects).len();
        if i < a {
            assert(rest[i].on_grid(dimensions));
        } else if i < b {
            assert(graves(objects)[i - a].on_grid(dimensions));
        } else if i < c {
            assert(explosions(objects)[i - b].on_grid(dimensions));
        } else {
            assert(splashes(objects)[i - c].on_grid(dimensions));
        }
    }
}

/// Nothing leaves the grid in a tick: if every object stands on the grid
/// before a tick, every object stands on the grid after it.
pub proof fn lemma_tick_stays_on_grid(
    objects: Seq<GridObject>,
    dimensions: Dimensions,
    recorded: usize,
    moves: Seq<Direction>,
    movement_due: bool,
    transporter_due: bool,
    effects_due: bool,
)
    requires
        all_objects_on_grid(objects, dimensions),
    ensures
        all_objects_on_grid(
            faced(
                after_rules_and_pruning(
                    after_movement(objects, dimensions, moves, movement_due, transporter_due),
                    recorded,
                    effects_due,
                ),
            ),
            dimensions,
        ),
{
    lemma_moves_stay_on_grid(objects, dimensions, moves, moves.len() as int);
    let stepped = after_moves(objects, dimensions, moves, moves.len() as int);
    lemma_movers_stay_on_grid(stepped, dimensions, stepped.len() as int);
    let moved = if movement_due {
        moved_upto(stepped, dimensions, stepped.len() as int)
    } else {
        stepped
    };
    lemma_transporters_stay_on_grid(moved, dimensions, moved.len() as int);
    let conveyed = if transporter_due {
        transported_upto(moved, dimensions, moved.len() as int).0
    } else {
        moved
    };
    let settled = after_movement(objects, dimensions, moves, movement_due, transporter_due);
    assert(settled == conveyed);
    lemma_rules_stay_on_grid(settled, recorded, effects_due, dimensions);
    let after = after_rules_and_pruning(settled, recorded, effects_due);
    assert forall|i: int| 0 <= i < faced(after).len() implies (#[trigger] faced(
        after,
    )[i]).on_grid(dimensions) by {
        assert(after[i].on_grid(dimensions));
    }
}

} // verus!
