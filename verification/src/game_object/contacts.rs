//! Contact between objects that share a cell: which of them go, and which
//! effects appear in their place.

use vstd::prelude::*;

use crate::game_object::components::Position;
use crate::game_object::object_bundles::GridObject;

verus! {

/// The effects that a contact can leave behind.
#[derive(Clone, Copy, Debug, PartialEq, Eq, Structural)]
pub enum Effect {
    Grave,
    Explosion,
    Splash,
}

impl Effect {
    /// The object that shows the effect at `position`.
    pub open spec fn object(self, position: Position) -> GridObject {
        match self {
            Effect::Grave => GridObject::spec_grave(position),
            Effect::Explosion => GridObject::spec_explosion(position),
            Effect::Splash => GridObject::spec_splash(position),
        }
    }

    /// Makes the object that shows the effect at `position`.
    pub fn spawn(self, position: Position) -> (object: GridObject)
        ensures
            object == self.object(position),
    {
        match self {
            Effect::Grave => GridObject::grave(position),
            Effect::Explosion => GridObject::explosion(position),
            Effect::Splash => GridObject::splash(position),
        }
    }
}

/// Whether an object marked in `mask` stands at `position`.
pub open spec fn marked_at(objects: Seq<GridObject>, mask: Seq<bool>, position: Position) -> bool {
    exists|j: int|
        0 <= j < objects.len() && mask[j] && (#[trigger] objects[j]).position == position
}

/// The number of objects among the first `k` that are marked in `mask` and
/// stand at `position`.
pub open spec fn count_marked_at(
    objects: Seq<GridObject>,
    mask: Seq<bool>,
    position: Position,
    k: int,
) -> nat
    decreases k,
{
    if k <= 0 {
        0
    } else {
        count_marked_at(objects, mask, position, k - 1) + if mask[k - 1] && objects[k
            - 1].position == position {
            1nat
        } else {
            0nat
        }
    }
}

/// Whether a contact removes `objects[i]`: it is an inner object in the cell
/// of an outer one, or an outer object in the cell of an inner one where the
/// contact removes both.
pub open spec fn removed_by_contact(
    objects: Seq<GridObject>,
    outer: Seq<bool>,
    inner: Seq<bool>,
    both: bool,
    i: int,
) -> bool {
    ||| inner[i] && marked_at(objects, outer, objects[i].position)
    ||| both && outer[i] && marked_at(objects, inner, objects[i].position)
}

/// Those of the first `k` objects that no contact removes, in order.
pub open spec fn survivors(
    objects: Seq<GridObject>,
    outer: Seq<bool>,
    inner: Seq<bool>,
    both: bool,
    k: int,
) -> Seq<GridObject>
    decreases k,
{
    if k <= 0 {
        Seq::empty()
    } else if removed_by_contact(objects, outer, inner, both, k - 1) {
        survivors(objects, outer, inner, both, k - 1)
    } else {
        survivors(objects, outer, inner, both, k - 1).push(objects[k - 1])
    }
}

/// `n` times the effect at `position`.
pub open spec fn repeated(effect: Effect, position: Position, n: nat) -> Seq<GridObject> {
    Seq::new(n, |i: int| effect.object(position))
}

/// The effects of the contacts of the first `k` objects: for each outer
/// object among them, in order, one effect for each inner object in its
/// cell.
pub open spec fn contact_effects(
    objects: Seq<GridObject>,
    outer: Seq<bool>,
    inner: Seq<bool>,
    effect: Effect,
    k: int,
) -> Seq<GridObject>
    decreases k,
{
    if k <= 0 {
        Seq::empty()
    } else if outer[k - 1] {
        contact_effects(objects, outer, inner, effect, k - 1) + repeated(
            effect,
            objects[k - 1].position,
            count_marked_at(objects, inner, objects[k - 1].position, objects.len() as int),
        )
    } else {
        contact_effects(objects, outer, inner, effect, k - 1)
    }
}

/// The objects after the contacts between outer and inner objects: those that
/// stay, then the effects.
pub open spec fn after_contacts(
    objects: Seq<GridObject>,
    outer: Seq<bool>,
    inner: Seq<bool>,
    both: bool,
    effect: Effect,
) -> Seq<GridObject> {
    survivors(objects, outer, inner, both, objects.len() as int) + contact_effects(
        objects,
        outer,
        inner,
        effect,
        objects.len() as int,
    )
}

/// Whether a contact removes a player.
pub open spec fn player_removed(
    objects: Seq<GridObject>,
    outer: Seq<bool>,
    inner: Seq<bool>,
    both: bool,
) -> bool {
    exists|i: int|
        0 <= i < objects.len() && (#[trigger] objects[i]).player && removed_by_contact(
            objects,
            outer,
            inner,
            both,
            i,
        )
}

/// What a contact rule did.
#[derive(Clone, Copy, Debug, PartialEq, Eq, Structural)]
pub struct Outcome {
    /// The number of effects that appeared.
    pub effects: usize,
    /// Whether a player was removed, so that the level is lost.
    pub player_removed: bool,
}

/// Whether an object marked in `mask` stands at `position`.
pub fn any_marked_at(objects: &Vec<GridObject>, mask: &Vec<bool>, position: Position) -> (r: bool)
    requires
        mask.len() == objects.len(),
    ensures
        r == marked_at(objects@, mask@, position),
{
    let mut i: usize = 0;
    while i < objects.len()
        invariant
            i <= objects.len(),
            mask.len() == objects.len(),
            forall|j: int|
                0 <= j < i ==> !(mask[j] && (#[trigger] objects[j]).position == position),
        decreases objects.len() - i,
    {
        if mask[i] && objects[i].position.x == position.x && objects[i].position.y == position.y {
            return true;
        }
        i += 1;
    }
    false
}

/// For each object, whether a contact removes it.
pub open spec fn removals(
    objects: Seq<GridObject>,
    outer: Seq<bool>,
    inner: Seq<bool>,
    both: bool,
) -> Seq<bool> {
    Seq::new(objects.len(), |i: int| removed_by_contact(objects, outer, inner, both, i))
}

/// Finds the objects that the contacts between the objects marked in `outer`
/// and those marked in `inner` remove.
pub fn find_removals(
    objects: &Vec<GridObject>,
    outer: &Vec<bool>,
    inner: &Vec<bool>,
    both: bool,
) -> (mask: Vec<bool>)
    requires
        outer.len() == objects.len(),
        inner.len() == objects.len(),
    ensures
        mask@ == removals(objects@, outer@, inner@, both),
{
    let n: usize = objects.len();
    let mut mask: Vec<bool> = Vec::new();
    let mut i: usize = 0;
    while i < n
        invariant
            i <= n,
            n == objects.len(),
            outer.len() == n,
            inner.len() == n,
            mask.len() == i,
            forall|j: int|
                0 <= j < i ==> mask[j] == removed_by_contact(objects@, outer@, inner@, both, j),
        decreases n - i,
    {
        let position: Position = objects[i].position;
        let removed: bool = (inner[i] && any_marked_at(objects, outer, position)) || (both
            && outer[i] && any_marked_at(objects, inner, position));
        mask.push(removed);
        i += 1;
    }
    assert(mask@ =~= removals(objects@, outer@, inner@, both));
    mask
}

/// Makes the effects of the contacts between the objects marked in `outer`
/// and those marked in `inner`.
pub fn find_effects(
    objects: &Vec<GridObject>,
    outer: &Vec<bool>,
    inner: &Vec<bool>,
    effect: Effect,
) -> (effects: Vec<GridObject>)
    requires
        outer.len() == objects.len(),
        inner.len() == objects.len(),
    ensures
        effects@ == contact_effects(objects@, outer@, inner@, effect, objects.len() as int),
{
    let n: usize = objects.len();
    let mut effects: Vec<GridObject> = Vec::new();
    let mut i: usize = 0;
    while i < n
        invariant
            i <= n,
            n == objects.len(),
            outer.len() == n,
            inner.len() == n,
            effects@ == contact_effects(objects@, outer@, inner@, effect, i as int),
        decreases n - i,
    {
        if outer[i] {
            let object: GridObject = objects[i];
            let ghost so_far = effects@;
            let mut j: usize = 0;
            while j < n
                invariant
                    j <= n,
                    n == objects.len(),
                    inner.len() == n,
                    i < n,
                    object == objects[i as int],
                    effects@ == so_far + repeated(
                        effect,
                        object.position,
                        count_marked_at(objects@, inner@, object.position, j as int),
                    ),
                decreases n - j,
            {
                if inner[j] && objects[j].shares_cell(&object) {
                    effects.push(effect.spawn(object.position));
                }
                j += 1;
            }
        }
        i += 1;
    }
    effects
}

/// Applies the contacts between the objects marked in `outer` and those
/// marked in `inner`: wherever an outer and an inner object share a cell, the
/// inner one goes, the outer one goes too if `both` is set, and an effect
/// appears in the cell.
pub fn resolve_contacts(
    objects: &mut Vec<GridObject>,
    outer: &Vec<bool>,
    inner: &Vec<bool>,
    both: bool,
    effect: Effect,
) -> (outcome: Outcome)
    requires
        outer.len() == old(objects).len(),
        inner.len() == old(objects).len(),
    ensures
        final(objects)@ == after_contacts(old(objects)@, outer@, inner@, both, effect),
        outcome.player_removed == player_removed(old(objects)@, outer@, inner@, both),
        outcome.effects == contact_effects(
            old(objects)@,
            outer@,
            inner@,
            effect,
            old(objects).len() as int,
        ).len(),
{
    let n: usize = objects.len();
    let ghost before = objects@;
    let removed = find_removals(objects, outer, inner, both);
    let mut effects = find_effects(objects, outer, inner, effect);
    let mut kept: Vec<GridObject> = Vec::new();
    let mut lost: bool = false;
    let mut i: usize = 0;
    while i < n
        invariant
            i <= n,
            n == objects.len(),
            objects@ == before,
            removed@ == removals(before, outer@, inner@, both),
            kept@ == survivors(before, outer@, inner@, both, i as int),
            lost == exists|j: int|
                0 <= j < i && (#[trigger] before[j]).player && removed_by_contact(
                    before,
                    outer@,
                    inner@,
                    both,
                    j,
                ),
        decreases n - i,
    {
        let object: GridObject = objects[i];
        if !removed[i] {
            kept.push(object);
        } else if object.player {
            lost = true;
        }
        i += 1;
    }
    let count: usize = effects.len();
    kept.append(&mut effects);
    *objects = kept;
    Outcome { effects: count, player_removed: lost }
}

} // verus!
