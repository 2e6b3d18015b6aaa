//! The rules that react to where the objects stand: deadly contact, exits,
//! explosives, liquids, triggers and gates, and the passing of effects.

use vstd::prelude::*;

use crate::game_object::components::Position;
use crate::game_object::contacts::{
    after_contacts, any_marked_at, contact_effects, count_marked_at, find_effects, find_removals,
    marked_at, player_removed, removals, removed_by_contact, resolve_contacts, Effect, Outcome,
};
use crate::game_object::object_bundles::GridObject;

verus! {

/// For each object, whether it is a player.
pub open spec fn players(objects: Seq<GridObject>) -> Seq<bool> {
    Seq::new(objects.len(), |i: int| objects[i].player)
}

/// For each object, whether it is deadly.
pub open spec fn deadlies(objects: Seq<GridObject>) -> Seq<bool> {
    Seq::new(objects.len(), |i: int| objects[i].deadly)
}

/// For each object, whether it is an exit.
pub open spec fn exits(objects: Seq<GridObject>) -> Seq<bool> {
    Seq::new(objects.len(), |i: int| objects[i].exit)
}

/// For each object, whether it is explosive.
pub open spec fn explosives(objects: Seq<GridObject>) -> Seq<bool> {
    Seq::new(objects.len(), |i: int| objects[i].explosive)
}

/// For each object, whether it is not explosive.
pub open spec fn inert(objects: Seq<GridObject>) -> Seq<bool> {
    Seq::new(objects.len(), |i: int| !objects[i].explosive)
}

/// For each object, whether it is liquid.
pub open spec fn liquids(objects: Seq<GridObject>) -> Seq<bool> {
    Seq::new(objects.len(), |i: int| objects[i].liquid)
}

/// For each object, whether it floats and is not itself liquid.
pub open spec fn floaters(objects: Seq<GridObject>) -> Seq<bool> {
    Seq::new(objects.len(), |i: int| !objects[i].liquid && objects[i].floatable)
}

/// For each object, whether liquid in its cell would make it sink: it is not
/// liquid, does not float, and nothing in its cell floats.
pub open spec fn sinkers(objects: Seq<GridObject>) -> Seq<bool> {
    Seq::new(
        objects.len(),
        |i: int|
            !objects[i].liquid && !objects[i].floatable && !marked_at(
                objects,
                floaters(objects),
                objects[i].position,
            ),
    )
}

/// Whether `objects[i]` docks: it floats, shares its cell with liquid, and
/// nothing else in the cell floats.
pub open spec fn docks(objects: Seq<GridObject>, i: int) -> bool {
    &&& floaters(objects)[i]
    &&& marked_at(objects, liquids(objects), objects[i].position)
    &&& forall|j: int|
        0 <= j < objects.len() && j != i ==> !(floaters(objects)[j] && (
        #[trigger] objects[j]).position == objects[i].position)
}

/// The objects after docking: what docks can no longer be pushed.
pub open spec fn docked(objects: Seq<GridObject>) -> Seq<GridObject> {
    Seq::new(
        objects.len(),
        |i: int|
            if docks(objects, i) {
                GridObject { pushable: false, ..objects[i] }
            } else {
                objects[i]
            },
    )
}

/// For each object, whether it is neither a trigger nor a gate.
pub open spec fn plain_objects(objects: Seq<GridObject>) -> Seq<bool> {
    Seq::new(objects.len(), |i: int| !objects[i].trigger && !objects[i].openable)
}

/// Whether `objects[i]` is a pressed trigger: a trigger with a plain object
/// in its cell.
pub open spec fn is_pressed(objects: Seq<GridObject>, i: int) -> bool {
    objects[i].trigger && marked_at(objects, plain_objects(objects), objects[i].position)
}

/// The number of pressed triggers among the first `k` objects.
pub open spec fn count_pressed(objects: Seq<GridObject>, k: int) -> nat
    decreases k,
{
    if k <= 0 {
        0
    } else {
        count_pressed(objects, k - 1) + if is_pressed(objects, k - 1) {
            1nat
        } else {
            0nat
        }
    }
}

/// The object after the gates were told to open or to close. Only a gate
/// changes: opening takes away that it is massive and shows frame 1, closing
/// makes it massive and shows frame 0.
pub open spec fn gate_set(object: GridObject, open: bool) -> GridObject {
    if object.trigger || !object.openable {
        object
    } else if open && object.massive {
        GridObject {
            massive: false,
            frame: if object.frame is Some {
                Some(1usize)
            } else {
                None
            },
            ..object
        }
    } else if !open && !object.massive {
        GridObject {
            massive: true,
            frame: if object.frame is Some {
                Some(0usize)
            } else {
                None
            },
            ..object
        }
    } else {
        object
    }
}

/// The objects after the gates were told to open or to close.
pub open spec fn gates_set(objects: Seq<GridObject>, open: bool) -> Seq<GridObject> {
    Seq::new(objects.len(), |i: int| gate_set(objects[i], open))
}

/// The objects after the triggers were looked at, where `recorded` triggers
/// were pressed when they were looked at before: the gates open if more
/// are pressed now, close if fewer are, and stay as they are otherwise.
pub open spec fn gates_after(objects: Seq<GridObject>, recorded: usize) -> Seq<GridObject> {
    let pressed = count_pressed(objects, objects.len() as int);
    if pressed > recorded {
        gates_set(objects, true)
    } else if pressed < recorded {
        gates_set(objects, false)
    } else {
        objects
    }
}

/// Those of the first `k` objects that are not volatile, in order.
pub open spec fn lasting(objects: Seq<GridObject>, k: int) -> Seq<GridObject>
    decreases k,
{
    if k <= 0 {
        Seq::empty()
    } else if objects[k - 1].volatile {
        lasting(objects, k - 1)
    } else {
        lasting(objects, k - 1).push(objects[k - 1])
    }
}

/// The object with its picture turned the way it faces: an object that has
/// both a direction and frames shows the frame of its direction.
pub open spec fn facing(object: GridObject) -> GridObject {
    match (object.direction, object.frame) {
        (Some(direction), Some(_)) => GridObject {
            frame: Some(direction.spec_index() as usize),
            ..object
        },
        _ => object,
    }
}

/// The number of players among the first `k` objects.
pub open spec fn count_players(objects: Seq<GridObject>, k: int) -> nat
    decreases k,
{
    if k <= 0 {
        0
    } else {
        count_players(objects, k - 1) + if objects[k - 1].player {
            1nat
        } else {
            0nat
        }
    }
}

fn player_mask(objects: &Vec<GridObject>) -> (mask: Vec<bool>)
    ensures
        mask@ == players(objects@),
{
    let mut mask: Vec<bool> = Vec::new();
    let mut i: usize = 0;
    while i < objects.len()
        invariant
            i <= objects.len(),
            mask.len() == i,
            forall|j: int| 0 <= j < i ==> mask[j] == objects[j].player,
        decreases objects.len() - i,
    {
        mask.push(objects[i].player);
        i += 1;
    }
    assert(mask@ =~= players(objects@));
    mask
}

fn deadly_mask(objects: &Vec<GridObject>) -> (mask: Vec<bool>)
    ensures
        mask@ == deadlies(objects@),
{
    let mut mask: Vec<bool> = Vec::new();
    let mut i: usize = 0;
    while i < objects.len()
        invariant
            i <= objects.len(),
            mask.len() == i,
            forall|j: int| 0 <= j < i ==> mask[j] == objects[j].deadly,
        decreases objects.len() - i,
    {
        mask.push(objects[i].deadly);
        i += 1;
    }
    assert(mask@ =~= deadlies(objects@));
    mask
}

fn exit_mask(objects: &Vec<GridObject>) -> (mask: Vec<bool>)
    ensures
        mask@ == exits(objects@),
{
    let mut mask: Vec<bool> = Vec::new();
    let mut i: usize = 0;
    while i < objects.len()
        invariant
            i <= objects.len(),
            mask.len() == i,
            forall|j: int| 0 <= j < i ==> mask[j] == objects[j].exit,
        decreases objects.len() - i,
    {
        mask.push(objects[i].exit);
        i += 1;
    }
    assert(mask@ =~= exits(objects@));
    mask
}

fn explosive_mask(objects: &Vec<GridObject>, wanted: bool) -> (mask: Vec<bool>)
    ensures
        wanted ==> mask@ == explosives(objects@),
        !wanted ==> mask@ == inert(objects@),
{
    let mut mask: Vec<bool> = Vec::new();
    let mut i: usize = 0;
    while i < objects.len()
        invariant
            i <= objects.len(),
            mask.len() == i,
            forall|j: int| 0 <= j < i ==> mask[j] == (objects[j].explosive == wanted),
        decreases objects.len() - i,
    {
        mask.push(objects[i].explosive == wanted);
        i += 1;
    }
    assert(wanted ==> mask@ =~= explosives(objects@));
    assert(!wanted ==> mask@ =~= inert(objects@));
    mask
}

fn liquid_mask(objects: &Vec<GridObject>) -> (mask: Vec<bool>)
    ensures
        mask@ == liquids(objects@),
{
    let mut mask: Vec<bool> = Vec::new();
    let mut i: usize = 0;
    while i < objects.len()
        invariant
            i <= objects.len(),
            mask.len() == i,
            forall|j: int| 0 <= j < i ==> mask[j] == objects[j].liquid,
        decreases objects.len() - i,
    {
        mask.push(objects[i].liquid);
        i += 1;
    }
    assert(mask@ =~= liquids(objects@));
    mask
}

fn floater_mask(objects: &Vec<GridObject>) -> (mask: Vec<bool>)
    ensures
        mask@ == floaters(objects@),
{
    let mut mask: Vec<bool> = Vec::new();
    let mut i: usize = 0;
    while i < objects.len()
        invariant
            i <= objects.len(),
            mask.len() == i,
            forall|j: int|
                0 <= j < i ==> mask[j] == (!objects[j].liquid && objects[j].floatable),
        decreases objects.len() - i,
    {
        mask.push(!objects[i].liquid && objects[i].floatable);
        i += 1;
    }
    assert(mask@ =~= floaters(objects@));
    mask
}

fn sinker_mask(objects: &Vec<GridObject>, floating: &Vec<bool>) -> (mask: Vec<bool>)
    requires
        floating@ == floaters(objects@),
    ensures
        mask@ == sinkers(objects@),
{
    let mut mask: Vec<bool> = Vec::new();
    let mut i: usize = 0;
    while i < objects.len()
        invariant
            i <= objects.len(),
            mask.len() == i,
            floating@ == floaters(objects@),
            forall|j: int| 0 <= j < i ==> mask[j] == sinkers(objects@)[j],
        decreases objects.len() - i,
    {
        let object = &objects[i];
        let sinks: bool = !object.liquid && !object.floatable && !any_marked_at(
            objects,
            floating,
            object.position,
        );
        mask.push(sinks);
        i += 1;
    }
    assert(mask@ =~= sinkers(objects@));
    mask
}

fn plain_mask(objects: &Vec<GridObject>) -> (mask: Vec<bool>)
    ensures
        mask@ == plain_objects(objects@),
{
    let mut mask: Vec<bool> = Vec::new();
    let mut i: usize = 0;
    while i < objects.len()
        invariant
            i <= objects.len(),
            mask.len() == i,
            forall|j: int|
                0 <= j < i ==> mask[j] == (!objects[j].trigger && !objects[j].openable),
        decreases objects.len() - i,
    {
        mask.push(!objects[i].trigger && !objects[i].openable);
        i += 1;
    }
    assert(mask@ =~= plain_objects(objects@));
    mask
}

/// Deadly contact: wherever a player and a deadly object share a cell, both
/// go and a grave appears.
pub fn check_for_deadly(objects: &mut Vec<GridObject>) -> (outcome: Outcome)
    ensures
        final(objects)@ == after_contacts(
            old(objects)@,
            players(old(objects)@),
            deadlies(old(objects)@),
            true,
            Effect::Grave,
        ),
        outcome.player_removed == player_removed(
            old(objects)@,
            players(old(objects)@),
            deadlies(old(objects)@),
            true,
        ),
        outcome.effects == contact_effects(
            old(objects)@,
            players(old(objects)@),
            deadlies(old(objects)@),
            Effect::Grave,
            old(objects).len() as int,
        ).len(),
{
    let outer = player_mask(objects);
    let inner = deadly_mask(objects);
    resolve_contacts(objects, &outer, &inner, true, Effect::Grave)
}

/// Whether a player stands on an exit, so that the level is completed.
pub fn check_for_exit(objects: &Vec<GridObject>) -> (reached: bool)
    ensures
        reached == exists|i: int|
            0 <= i < objects.len() && (#[trigger] objects[i]).player && marked_at(
                objects@,
                exits(objects@),
                objects[i].position,
            ),
{
    let mask = exit_mask(objects);
    let mut i: usize = 0;
    while i < objects.len()
        invariant
            i <= objects.len(),
            mask@ == exits(objects@),
            forall|j: int|
                0 <= j < i ==> !((#[trigger] objects[j]).player && marked_at(
                    objects@,
                    exits(objects@),
                    objects[j].position,
                )),
        decreases objects.len() - i,
    {
        if objects[i].player && any_marked_at(objects, &mask, objects[i].position) {
            return true;
        }
        i += 1;
    }
    false
}

/// Explosives: wherever an explosive object shares a cell with one that is
/// not explosive, both go and an explosion appears.
pub fn check_for_explosive(objects: &mut Vec<GridObject>) -> (outcome: Outcome)
    ensures
        final(objects)@ == after_contacts(
            old(objects)@,
            explosives(old(objects)@),
            inert(old(objects)@),
            true,
            Effect::Explosion,
        ),
        outcome.player_removed == player_removed(
            old(objects)@,
            explosives(old(objects)@),
            inert(old(objects)@),
            true,
        ),
        outcome.effects == contact_effects(
            old(objects)@,
            explosives(old(objects)@),
            inert(old(objects)@),
            Effect::Explosion,
            old(objects).len() as int,
        ).len(),
{
    let outer = explosive_mask(objects, true);
    let inner = explosive_mask(objects, false);
    resolve_contacts(objects, &outer, &inner, true, Effect::Explosion)
}

/// Docks what floats alone on liquid: it can no longer be pushed.
fn dock(objects: &mut Vec<GridObject>, liquid: &Vec<bool>, floating: &Vec<bool>)
    requires
        liquid@ == liquids(old(objects)@),
        floating@ == floaters(old(objects)@),
    ensures
        final(objects)@ == docked(old(objects)@),
{
    let ghost before = objects@;
    let n: usize = objects.len();
    let mut i: usize = 0;
    while i < n
        invariant
            i <= n,
            n == objects.len(),
            n == before.len(),
            liquid@ == liquids(before),
            floating@ == floaters(before),
            forall|j: int| 0 <= j < i ==> objects[j] == docked(before)[j],
            forall|j: int| i <= j < n ==> objects[j] == before[j],
            forall|j: int| 0 <= j < n ==> (#[trigger] objects[j]).position == before[j].position,
        decreases n - i,
    {
        let mut object: GridObject = objects[i];
        if floating[i] && any_marked_at(objects, liquid, object.position) {
            let mut alone: bool = true;
            let mut j: usize = 0;
            while j < n
                invariant
                    j <= n,
                    i < n,
                    n == objects.len(),
                    n == before.len(),
                    floating@ == floaters(before),
                    object == before[i as int],
                    object == objects[i as int],
                    forall|m: int|
                        0 <= m < n ==> (#[trigger] objects[m]).position == before[m].position,
                    alone == forall|m: int|
                        0 <= m < j && m != i ==> !(floaters(before)[m] && (
                        #[trigger] before[m]).position == object.position),
                decreases n - j,
            {
                if j != i && floating[j] && objects[j].shares_cell(&object) {
                    alone = false;
                }
                j += 1;
            }
            if alone {
                object.pushable = false;
            }
            assert(alone == docks(before, i as int));
        } else {
            assert(!docks(before, i as int)) by {
                if marked_at(before, liquids(before), before[i as int].position) {
                    let m = choose|m: int|
                        0 <= m < before.len() && liquids(before)[m] && (
                        #[trigger] before[m]).position == before[i as int].position;
                    assert(objects[m].position == before[m].position);
                }
            }
        }
        objects.set(i, object);
        i += 1;
    }
    assert(objects@ =~= docked(before));
}

/// Liquids: an object that does not float sinks where it shares a cell with
/// liquid and nothing there floats; it goes and a splash appears. An object
/// that floats docks where it shares a cell with liquid and nothing else
/// there floats; it stays and can no longer be pushed.
pub fn check_for_liquid(objects: &mut Vec<GridObject>) -> (outcome: Outcome)
    ensures
        final(objects)@ == after_contacts(
            docked(old(objects)@),
            liquids(old(objects)@),
            sinkers(old(objects)@),
            false,
            Effect::Splash,
        ),
        outcome.player_removed == player_removed(
            old(objects)@,
            liquids(old(objects)@),
            sinkers(old(objects)@),
            false,
        ),
        outcome.effects == contact_effects(
            old(objects)@,
            liquids(old(objects)@),
            sinkers(old(objects)@),
            Effect::Splash,
            old(objects).len() as int,
        ).len(),
{
    let outer = liquid_mask(objects);
    let floating = floater_mask(objects);
    let inner = sinker_mask(objects, &floating);
    dock(objects, &outer, &floating);
    proof {
        lemma_docking_keeps_contacts(old(objects)@);
    }
    resolve_contacts(objects, &outer, &inner, false, Effect::Splash)
}

/// Docking changes neither where objects stand nor which of them are
/// players, so it changes no contact.
proof fn lemma_docking_keeps_contacts(objects: Seq<GridObject>)
    ensures
        player_removed(docked(objects), liquids(objects), sinkers(objects), false)
            == player_removed(objects, liquids(objects), sinkers(objects), false),
        contact_effects(
            docked(objects),
            liquids(objects),
            sinkers(objects),
            Effect::Splash,
            objects.len() as int,
        ).len() == contact_effects(
            objects,
            liquids(objects),
            sinkers(objects),
            Effect::Splash,
            objects.len() as int,
        ).len(),
{
    let after = docked(objects);
    let outer = liquids(objects);
    let inner = sinkers(objects);
    assert forall|p| marked_at(after, outer, p) == marked_at(objects, outer, p) by {
        if marked_at(after, outer, p) {
            let j = choose|j: int|
                0 <= j < after.len() && outer[j] && (#[trigger] after[j]).position == p;
            assert(objects[j].position == p);
        }
        if marked_at(objects, outer, p) {
            let j = choose|j: int|
                0 <= j < objects.len() && outer[j] && (#[trigger] objects[j]).position == p;
            assert(after[j].position == p);
        }
    }
    if player_removed(after, outer, inner, false) {
        let i = choose|i: int|
            0 <= i < after.len() && (#[trigger] after[i]).player && removed_by_contact(
                after,
                outer,
                inner,
                false,
                i,
            );
        assert(objects[i].player);
    }
    if player_removed(objects, outer, inner, false) {
        let i = choose|i: int|
            0 <= i < objects.len() && (#[trigger] objects[i]).player && removed_by_contact(
                objects,
                outer,
                inner,
                false,
                i,
            );
        assert(after[i].player);
    }
    lemma_effects_follow_positions(after, objects, outer, inner, objects.len() as int);
}

/// The number of effects depends only on where the objects stand.
proof fn lemma_effects_follow_positions(
    a: Seq<GridObject>,
    b: Seq<GridObject>,
    outer: Seq<bool>,
    inner: Seq<bool>,
    k: int,
)
    requires
        a.len() == b.len(),
        k <= a.len(),
        forall|i: int| 0 <= i < a.len() ==> (#[trigger] a[i]).position == b[i].position,
    ensures
        contact_effects(a, outer, inner, Effect::Splash, k).len() == contact_effects(
            b,
            outer,
            inner,
            Effect::Splash,
            k,
        ).len(),
    decreases k,
{
    if k > 0 {
        lemma_effects_follow_positions(a, b, outer, inner, k - 1);
        assert(a[k - 1].position == b[k - 1].position);
        lemma_count_follows_positions(a, b, inner, a[k - 1].position, a.len() as int);
    }
}

/// The number of marked objects in a cell depends only on where the objects
/// stand.
proof fn lemma_count_follows_positions(
    a: Seq<GridObject>,
    b: Seq<GridObject>,
    mask: Seq<bool>,
    position: Position,
    k: int,
)
    requires
        a.len() == b.len(),
        k <= a.len(),
        forall|i: int| 0 <= i < a.len() ==> (#[trigger] a[i]).position == b[i].position,
    ensures
        count_marked_at(a, mask, position, k)
            == count_marked_at(b, mask, position, k),
    decreases k,
{
    if k > 0 {
        lemma_count_follows_positions(a, b, mask, position, k - 1);
        assert(a[k - 1].position == b[k - 1].position);
    }
}

/// Triggers and gates: counts the triggers that a plain object rests on and
/// compares the count with the one recorded before. If it grew, all gates
/// open; if it shrank, all gates close; if it is the same, nothing happens.
/// The new count is recorded.
pub fn check_for_triggers(objects: &mut Vec<GridObject>, pressed_triggers: &mut usize)
    ensures
        final(objects)@ == gates_after(old(objects)@, *old(pressed_triggers)),
        *final(pressed_triggers) == count_pressed(old(objects)@, old(objects).len() as int),
{
    let plain = plain_mask(objects);
    let n: usize = objects.len();
    let mut pressed: usize = 0;
    let mut i: usize = 0;
    while i < n
        invariant
            i <= n,
            n == objects.len(),
            objects@ == old(objects)@,
            plain@ == plain_objects(objects@),
            pressed == count_pressed(objects@, i as int),
            pressed <= i,
        decreases n - i,
    {
        if objects[i].trigger && any_marked_at(objects, &plain, objects[i].position) {
            pressed += 1;
        }
        i += 1;
    }
    if pressed == *pressed_triggers {
        return ;
    }
    let open: bool = pressed > *pressed_triggers;
    let ghost before = objects@;
    i = 0;
    while i < n
        invariant
            i <= n,
            n == objects.len(),
            n == before.len(),
            forall|j: int| 0 <= j < i ==> objects[j] == gate_set(before[j], open),
            forall|j: int| i <= j < n ==> objects[j] == before[j],
        decreases n - i,
    {
        let mut object: GridObject = objects[i];
        if !object.trigger && object.openable {
            if open && object.massive {
                object.massive = false;
                if object.frame.is_some() {
                    object.frame = Some(1);
                }
            } else if !open && !object.massive {
                object.massive = true;
                if object.frame.is_some() {
                    object.frame = Some(0);
                }
            }
        }
        objects.set(i, object);
        i += 1;
    }
    *pressed_triggers = pressed;
    assert(objects@ =~= gates_set(before, open));
}

/// Removes the volatile objects. It is for the caller to wait the short time
/// that effects stay.
pub fn despawn_volatile_objects(objects: &mut Vec<GridObject>)
    ensures
        final(objects)@ == lasting(old(objects)@, old(objects).len() as int),
{
    let mut kept: Vec<GridObject> = Vec::new();
    let mut i: usize = 0;
    while i < objects.len()
        invariant
            i <= objects.len(),
            objects@ == old(objects)@,
            kept@ == lasting(objects@, i as int),
        decreases objects.len() - i,
    {
        if !objects[i].volatile {
            kept.push(objects[i]);
        }
        i += 1;
    }
    *objects = kept;
}

/// Turns the picture of each object the way the object faces.
pub fn update_entity_directions(objects: &mut Vec<GridObject>)
    ensures
        final(objects)@ == Seq::new(old(objects)@.len(), |i: int| facing(old(objects)@[i])),
{
    let ghost before = objects@;
    let n: usize = objects.len();
    let mut i: usize = 0;
    while i < n
        invariant
            i <= n,
            n == objects.len(),
            n == before.len(),
            forall|j: int| 0 <= j < i ==> objects[j] == facing(before[j]),
            forall|j: int| i <= j < n ==> objects[j] == before[j],
        decreases n - i,
    {
        let mut object: GridObject = objects[i];
        match (object.direction, object.frame) {
            (Some(direction), Some(_)) => {
                object.frame = Some(direction.index() as usize);
            },
            _ => {},
        }
        objects.set(i, object);
        i += 1;
    }
    assert(objects@ =~= Seq::new(before.len(), |i: int| facing(before[i])));
}

/// The number of players on the grid.
pub fn player_count(objects: &Vec<GridObject>) -> (count: usize)
    ensures
        count == count_players(objects@, objects.len() as int),
{
    let mut count: usize = 0;
    let mut i: usize = 0;
    while i < objects.len()
        invariant
            i <= objects.len(),
            count == count_players(objects@, i as int),
            count <= i,
        decreases objects.len() - i,
    {
        if objects[i].player {
            count += 1;
        }
        i += 1;
    }
    count
}

/// Whether the game is over: the editor is closed and the grid does not hold
/// exactly one player.
pub fn check_for_game_over(objects: &Vec<GridObject>, editor_open: bool) -> (over: bool)
    ensures
        over == (!editor_open && count_players(objects@, objects.len() as int) != 1),
{
    !editor_open && player_count(objects) != 1
}

/// For each object, whether one of the contact rules removes it, all rules
/// looking at the same objects.
pub open spec fn removed_by_rules(objects: Seq<GridObject>) -> Seq<bool> {
    Seq::new(
        objects.len(),
        |i: int|
            removals(objects, players(objects), deadlies(objects), true)[i] || removals(
                objects,
                explosives(objects),
                inert(objects),
                true,
            )[i] || removals(objects, liquids(objects), sinkers(objects), false)[i],
    )
}

/// Those of the first `k` objects that are not marked in `removed`, in
/// order.
pub open spec fn kept(objects: Seq<GridObject>, removed: Seq<bool>, k: int) -> Seq<GridObject>
    decreases k,
{
    if k <= 0 {
        Seq::empty()
    } else if removed[k - 1] {
        kept(objects, removed, k - 1)
    } else {
        kept(objects, removed, k - 1).push(objects[k - 1])
    }
}

/// The graves that deadly contact leaves.
pub open spec fn graves(objects: Seq<GridObject>) -> Seq<GridObject> {
    contact_effects(
        objects,
        players(objects),
        deadlies(objects),
        Effect::Grave,
        objects.len() as int,
    )
}

/// The explosions of the explosives.
pub open spec fn explosions(objects: Seq<GridObject>) -> Seq<GridObject> {
    contact_effects(
        objects,
        explosives(objects),
        inert(objects),
        Effect::Explosion,
        objects.len() as int,
    )
}

/// The splashes of what sinks.
pub open spec fn splashes(objects: Seq<GridObject>) -> Seq<GridObject> {
    contact_effects(
        objects,
        liquids(objects),
        sinkers(objects),
        Effect::Splash,
        objects.len() as int,
    )
}

/// For each object, whether it goes: a contact rule removes it, or the time
/// of the effects is over and it is volatile.
pub open spec fn gone(objects: Seq<GridObject>, effects_due: bool) -> Seq<bool> {
    Seq::new(
        objects.len(),
        |i: int| removed_by_rules(objects)[i] || (effects_due && objects[i].volatile),
    )
}

/// The objects after all interaction rules and the going of the effects,
/// each rule looking at the objects as they were: the gates follow the
/// triggers, what floats alone on liquid docks, what a contact removes
/// goes, and so do the volatile objects if their time is over; the graves,
/// explosions and splashes that the rules leave come behind what stays, and
/// stay for their own time.
pub open spec fn after_rules_and_pruning(
    objects: Seq<GridObject>,
    recorded: usize,
    effects_due: bool,
) -> Seq<GridObject> {
    kept(
        docked(gates_after(objects, recorded)),
        gone(objects, effects_due),
        objects.len() as int,
    ) + graves(objects) + explosions(objects) + splashes(objects)
}

/// The objects after all interaction rules, each rule looking at the objects
/// as they were: the gates follow the triggers, what floats alone on liquid
/// docks, what a contact removes goes, and the graves, explosions and
/// splashes come behind what stays.
pub open spec fn after_rules(objects: Seq<GridObject>, recorded: usize) -> Seq<GridObject> {
    after_rules_and_pruning(objects, recorded, false)
}

/// Whether a player stands on an exit.
pub open spec fn exit_reached(objects: Seq<GridObject>) -> bool {
    exists|i: int|
        0 <= i < objects.len() && (#[trigger] objects[i]).player && marked_at(
            objects,
            exits(objects),
            objects[i].position,
        )
}

/// Whether deadly contact removes a player.
pub open spec fn player_dies(objects: Seq<GridObject>) -> bool {
    player_removed(objects, players(objects), deadlies(objects), true)
}

/// Whether a player explodes or sinks.
pub open spec fn player_is_lost(objects: Seq<GridObject>) -> bool {
    player_removed(objects, explosives(objects), inert(objects), true) || player_removed(
        objects,
        liquids(objects),
        sinkers(objects),
        false,
    )
}

/// What the interaction rules found.
#[derive(Clone, Copy, Debug, PartialEq, Eq, Structural)]
pub struct RulesOutcome {
    /// A player stood on an exit: the level is completed.
    pub level_completed: bool,
    /// Deadly contact removed a player and left a grave: the game is over
    /// until the level is started again.
    pub player_died: bool,
    /// A player exploded or sank: the level is to be started again.
    pub reload: bool,
    /// An explosion or a splash appeared.
    pub effects: bool,
}

/// Applies all interaction rules at once: deadly contact, exits,
/// explosives, liquids, and triggers and gates. Every rule looks at the
/// objects as they are when the call is made, so that no rule sees what
/// another one did.
pub fn run_interaction_rules(
    objects: &mut Vec<GridObject>,
    pressed_triggers: &mut usize,
) -> (outcome: RulesOutcome)
    ensures
        final(objects)@ == after_rules(old(objects)@, *old(pressed_triggers)),
        *final(pressed_triggers) == count_pressed(old(objects)@, old(objects).len() as int),
        outcome.level_completed == exit_reached(old(objects)@),
        outcome.player_died == player_dies(old(objects)@),
        outcome.reload == player_is_lost(old(objects)@),
        outcome.effects == (explosions(old(objects)@).len() + splashes(old(objects)@).len()
            > 0),
{
    run_rules_then_prune(objects, pressed_triggers, false)
}

/// Applies all interaction rules at once, as [`run_interaction_rules`] does,
/// and then lets the volatile objects go if `effects_due` says that their
/// time is over. The effects that the rules leave in this call stay.
pub fn run_rules_then_prune(
    objects: &mut Vec<GridObject>,
    pressed_triggers: &mut usize,
    effects_due: bool,
) -> (outcome: RulesOutcome)
    ensures
        final(objects)@ == after_rules_and_pruning(
            old(objects)@,
            *old(pressed_triggers),
            effects_due,
        ),
        *final(pressed_triggers) == count_pressed(old(objects)@, old(objects).len() as int),
        outcome.level_completed == exit_reached(old(objects)@),
        outcome.player_died == player_dies(old(objects)@),
        outcome.reload == player_is_lost(old(objects)@),
        outcome.effects == (explosions(old(objects)@).len() + splashes(old(objects)@).len()
            > 0),
{
    let ghost before = objects@;
    let n: usize = objects.len();
    let player = player_mask(objects);
    let deadly = deadly_mask(objects);
    let explosive = explosive_mask(objects, true);
    let other = explosive_mask(objects, false);
    let liquid = liquid_mask(objects);
    let floating = floater_mask(objects);
    let sinking = sinker_mask(objects, &floating);
    let level_completed: bool = check_for_exit(objects);
    let killed = find_removals(objects, &player, &deadly, true);
    let blown = find_removals(objects, &explosive, &other, true);
    let sunk = find_removals(objects, &liquid, &sinking, false);
    let mut new_graves = find_effects(objects, &player, &deadly, Effect::Grave);
    let mut new_explosions = find_effects(objects, &explosive, &other, Effect::Explosion);
    let mut new_splashes = find_effects(objects, &liquid, &sinking, Effect::Splash);
    let effects: bool = new_explosions.len() > 0 || new_splashes.len() > 0;
    check_for_triggers(objects, pressed_triggers);
    proof {
        let gated = gates_after(before, *old(pressed_triggers));
        assert(liquids(gated) =~= liquids(before));
        assert(floaters(gated) =~= floaters(before));
    }
    dock(objects, &liquid, &floating);
    let ghost settled = objects@;
    let mut rest: Vec<GridObject> = Vec::new();
    let mut player_died: bool = false;
    let mut reload: bool = false;
    let mut i: usize = 0;
    while i < n
        invariant
            i <= n,
            n == objects.len(),
            n == before.len(),
            objects@ == settled,
            killed@ == removals(before, players(before), deadlies(before), true),
            blown@ == removals(before, explosives(before), inert(before), true),
            sunk@ == removals(before, liquids(before), sinkers(before), false),
            forall|j: int| 0 <= j < n ==> (#[trigger] settled[j]).player == before[j].player,
            forall|j: int| 0 <= j < n ==> (#[trigger] settled[j]).volatile == before[j].volatile,
            rest@ == kept(settled, gone(before, effects_due), i as int),
            player_died == exists|j: int|
                0 <= j < i && (#[trigger] before[j]).player && removed_by_contact(
                    before,
                    players(before),
                    deadlies(before),
                    true,
                    j,
                ),
            reload == ((exists|j: int|
                0 <= j < i && (#[trigger] before[j]).player && removed_by_contact(
                    before,
                    explosives(before),
                    inert(before),
                    true,
                    j,
                )) || (exists|j: int|
                0 <= j < i && (#[trigger] before[j]).player && removed_by_contact(
                    before,
                    liquids(before),
                    sinkers(before),
                    false,
                    j,
                ))),
        decreases n - i,
    {
        let object: GridObject = objects[i];
        if killed[i] || blown[i] || sunk[i] {
            if object.player && killed[i] {
                player_died = true;
            }
            if object.player && (blown[i] || sunk[i]) {
                reload = true;
            }
        } else if !(effects_due && object.volatile) {
            rest.push(object);
        }
        i += 1;
    }
    rest.append(&mut new_graves);
    rest.append(&mut new_explosions);
    rest.append(&mut new_splashes);
    *objects = rest;
    RulesOutcome { level_completed, player_died, reload, effects }
}

} // verus!
