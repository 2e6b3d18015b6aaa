//! The world of one level attempt: the grid, the objects on it, and the
//! count of pressed triggers; how it is made from a level and stored as one.

use vstd::prelude::*;

use crate::game_object::behaviors::{
    after_rules_and_pruning, count_pressed, explosions, exit_reached, facing, player_dies,
    player_is_lost, run_rules_then_prune, splashes, update_entity_directions, RulesOutcome,
};
use crate::game_object::components::Direction;
use crate::game_object::object_bundles::{spawn_object_of_type, spawned, GridObject};
use crate::game_object::object_type::{ObjectType, OBJECT_TYPES};
use crate::game_object::travel::{
    after_player_move, check_for_transporter, move_objects, move_player, moved_upto,
    player_moves, transported_upto,
};
use crate::level::{
    is_proper, parse_level, placements_of, print_level, Dimensions, InitialPositionAndDirection,
    Level, LevelView,
};
use crate::round_trip::{all_positive, lemma_save_load_keeps_level, placed};

verus! {

/// The state of the game while a level is played.
#[derive(Debug, PartialEq, Eq)]
pub struct World {
    pub dimensions: Dimensions,
    pub objects: Vec<GridObject>,
    /// The number of pressed triggers found when the triggers were last
    /// looked at.
    pub pressed_triggers: usize,
}

/// The direction that an object of a level faces: the one it was given, or
/// up.
pub open spec fn facing_of(placement: InitialPositionAndDirection) -> Direction {
    match placement.direction {
        Some(direction) => direction,
        None => Direction::Up,
    }
}

/// The objects that the placements of one type start as, in order.
pub open spec fn spawned_all(
    object_type: ObjectType,
    placements: Seq<InitialPositionAndDirection>,
) -> Seq<GridObject> {
    Seq::new(
        placements.len(),
        |i: int| spawned(object_type, placements[i].position, facing_of(placements[i])),
    )
}

/// The objects that a level starts with, for the object types from position
/// `from` on: type by type, each in the order of the level.
pub open spec fn level_objects(
    objects: Map<ObjectType, Seq<InitialPositionAndDirection>>,
    from: usize,
) -> Seq<GridObject>
    decreases OBJECT_TYPES - from,
{
    if from >= OBJECT_TYPES {
        Seq::empty()
    } else {
        let object_type = ObjectType::spec_from_index(from);
        spawned_all(object_type, placements_of(objects, object_type)) + level_objects(
            objects,
            (from + 1) as usize,
        )
    }
}

/// Whether the object is stored with the level: it has a type and stands on
/// the grid.
pub open spec fn is_stored(object: GridObject, dimensions: Dimensions) -> bool {
    object.object_type is Some && object.on_grid(dimensions)
}

/// Where the stored objects of type `object_type` among the first `k`
/// objects stand and face, in order.
pub open spec fn stored_placements(
    objects: Seq<GridObject>,
    dimensions: Dimensions,
    object_type: ObjectType,
    k: int,
) -> Seq<InitialPositionAndDirection>
    decreases k,
{
    if k <= 0 {
        Seq::empty()
    } else if is_stored(objects[k - 1], dimensions) && objects[k - 1].object_type == Some(
        object_type,
    ) {
        stored_placements(objects, dimensions, object_type, k - 1).push(
            InitialPositionAndDirection {
                position: objects[k - 1].position,
                direction: objects[k - 1].direction,
            },
        )
    } else {
        stored_placements(objects, dimensions, object_type, k - 1)
    }
}

/// The level that holds the stored objects among the first `k` objects.
pub open spec fn level_of(objects: Seq<GridObject>, dimensions: Dimensions, k: int) -> LevelView {
    LevelView {
        dimensions,
        objects: Map::new(
            |t: ObjectType| stored_placements(objects, dimensions, t, k).len() > 0,
            |t: ObjectType| stored_placements(objects, dimensions, t, k),
        ),
    }
}

/// The level that holds the stored objects of a grid with at least one
/// column and one row is proper: what is stored stands on the grid.
pub proof fn lemma_stored_level_is_proper(
    objects: Seq<GridObject>,
    dimensions: Dimensions,
    k: int,
)
    requires
        dimensions.width >= 1,
        dimensions.height >= 1,
        k <= objects.len(),
    ensures
        is_proper(level_of(objects, dimensions, k)),
{
    assert forall|t: ObjectType| all_positive(
        #[trigger] stored_placements(objects, dimensions, t, k),
    ) by {
        lemma_stored_on_grid(objects, dimensions, t, k);
    }
}

/// What is stored of a type stands on cells numbered from 1.
pub proof fn lemma_stored_on_grid(
    objects: Seq<GridObject>,
    dimensions: Dimensions,
    object_type: ObjectType,
    k: int,
)
    requires
        k <= objects.len(),
    ensures
        all_positive(stored_placements(objects, dimensions, object_type, k)),
    decreases k,
{
    if k > 0 {
        lemma_stored_on_grid(objects, dimensions, object_type, k - 1);
    }
}

/// What is saved of a world is loaded back: the text written for a world
/// that can be saved is read as a level with the same dimensions and, of
/// every object type, objects that stand on the same cells and face the
/// same ways as those stored, each as often.
pub proof fn lemma_saved_world_is_read_back(objects: Seq<GridObject>, dimensions: Dimensions)
    requires
        can_save(objects, dimensions),
    ensures
        ({
            let stored = level_of(objects, dimensions, objects.len() as int);
            let loaded = parse_level(print_level(stored));
            &&& loaded.dimensions == dimensions
            &&& forall|t: ObjectType|
                placed(#[trigger] placements_of(loaded.objects, t)) == placed(
                    placements_of(stored.objects, t),
                )
        }),
{
    lemma_stored_needs_grid(objects, dimensions, ObjectType::Player, objects.len() as int);
    lemma_stored_level_is_proper(objects, dimensions, objects.len() as int);
    lemma_save_load_keeps_level(level_of(objects, dimensions, objects.len() as int));
}

/// Where something is stored, the grid has at least one column and one row.
pub proof fn lemma_stored_needs_grid(
    objects: Seq<GridObject>,
    dimensions: Dimensions,
    object_type: ObjectType,
    k: int,
)
    requires
        k <= objects.len(),
        stored_placements(objects, dimensions, object_type, k).len() > 0,
    ensures
        dimensions.width >= 1,
        dimensions.height >= 1,
    decreases k,
{
    if k > 0 && !(is_stored(objects[k - 1], dimensions) && objects[k - 1].object_type == Some(
        object_type,
    )) {
        lemma_stored_needs_grid(objects, dimensions, object_type, k - 1);
    }
}

/// Whether the world can be saved: exactly one player is stored with it.
pub open spec fn can_save(objects: Seq<GridObject>, dimensions: Dimensions) -> bool {
    stored_placements(objects, dimensions, ObjectType::Player, objects.len() as int).len() == 1
}

/// The level further on in the list by `delta`, but no further than its
/// ends.
pub open spec fn relative(current: usize, delta: isize, count: usize) -> int {
    let target = current + delta;
    if target < 0 {
        0
    } else if target > count - 1 {
        count - 1
    } else {
        target
    }
}

/// Makes the objects that a level starts with.
pub fn spawn_level_objects(level: &Level) -> (objects: Vec<GridObject>)
    ensures
        objects@ == level_objects(level@.objects, 0),
{
    let mut objects: Vec<GridObject> = Vec::new();
    let mut k: usize = 0;
    while k < OBJECT_TYPES
        invariant
            k <= OBJECT_TYPES,
            objects@ + level_objects(level@.objects, k) == level_objects(level@.objects, 0),
        decreases OBJECT_TYPES - k,
    {
        let object_type: ObjectType = ObjectType::from_index(k);
        let ghost before = objects@;
        let ghost rest = level_objects(level@.objects, (k + 1) as usize);
        match level.get(object_type) {
            Some(placements) => {
                let mut i: usize = 0;
                while i < placements.len()
                    invariant
                        i <= placements.len(),
                        objects@ == before + spawned_all(object_type, placements@.take(i as int)),
                    decreases placements.len() - i,
                {
                    let placement: InitialPositionAndDirection = placements[i];
                    let direction: Direction = match placement.direction {
                        Some(direction) => direction,
                        None => Direction::Up,
                    };
                    objects.push(spawn_object_of_type(object_type, placement.position, direction));
                    assert(objects@ =~= before + spawned_all(
                        object_type,
                        placements@.take(i + 1),
                    ));
                    i += 1;
                }
                proof {
                    assert(placements@.take(i as int) == placements@);
                    assert(objects@ + rest =~= before + (spawned_all(object_type, placements@)
                        + rest));
                }
            },
            None => {
                proof {
                    assert(spawned_all(object_type, Seq::empty()) =~= Seq::empty());
                    assert(objects@ + rest =~= before + (Seq::<GridObject>::empty() + rest));
                }
            },
        }
        k += 1;
    }
    assert(objects@ + Seq::<GridObject>::empty() =~= objects@);
    objects
}

/// Starts a level from its text: the grid has the size that the text gives,
/// the objects are those that the text places, and no trigger counts as
/// pressed.
pub fn load_level(content: &str) -> (world: World)
    ensures
        world.dimensions == parse_level(content@).dimensions,
        world.dimensions.width >= 1,
        world.dimensions.height >= 1,
        world.objects@ == level_objects(parse_level(content@).objects, 0),
        world.pressed_triggers == 0,
{
    let level = Level::load(content);
    World {
        dimensions: level.dimensions(),
        objects: spawn_level_objects(&level),
        pressed_triggers: 0,
    }
}

/// The level that holds the stored objects of the world.
fn level_from(objects: &Vec<GridObject>, dimensions: &Dimensions) -> (level: Level)
    ensures
        level@ == level_of(objects@, *dimensions, objects.len() as int),
{
    let mut level: Level = Level::new(*dimensions);
    let mut i: usize = 0;
    assert(level@.objects =~= level_of(objects@, *dimensions, 0).objects);
    while i < objects.len()
        invariant
            i <= objects.len(),
            level@ == level_of(objects@, *dimensions, i as int),
        decreases objects.len() - i,
    {
        let object: GridObject = objects[i];
        let ghost before = level@;
        match object.object_type {
            Some(object_type) => {
                if dimensions.holds(object.position.x as i32, object.position.y as i32) {
                    level.push(
                        object_type,
                        InitialPositionAndDirection {
                            position: object.position,
                            direction: object.direction,
                        },
                    );
                    proof {
                        let so_far = stored_placements(
                            objects@,
                            *dimensions,
                            object_type,
                            i as int,
                        );
                        assert(placements_of(before.objects, object_type) =~= so_far);
                    }
                }
            },
            None => {},
        }
        assert(level@.objects =~= level_of(objects@, *dimensions, i + 1).objects);
        i += 1;
    }
    level
}

/// Writes the world as level text: the size of the grid and every object
/// that has a type and stands on the grid. A world is only saved if exactly
/// one player is among these; the level that is written is then proper.
pub fn save_level(world: &World) -> (content: Option<String>)
    ensures
        content is Some <==> can_save(world.objects@, world.dimensions),
        content matches Some(text) ==> text@ == print_level(
            level_of(world.objects@, world.dimensions, world.objects.len() as int),
        ),
        content is Some ==> is_proper(
            level_of(world.objects@, world.dimensions, world.objects.len() as int),
        ),
{
    proof {
        if can_save(world.objects@, world.dimensions) {
            lemma_stored_needs_grid(
                world.objects@,
                world.dimensions,
                ObjectType::Player,
                world.objects.len() as int,
            );
            lemma_stored_level_is_proper(
                world.objects@,
                world.dimensions,
                world.objects.len() as int,
            );
        }
    }
    let level = level_from(&world.objects, &world.dimensions);
    let players: usize = match level.get(ObjectType::Player) {
        Some(list) => list.len(),
        None => 0,
    };
    if players == 1 {
        Some(level.save())
    } else {
        None
    }
}

/// The index of the level further on in a list of `count` levels by `delta`,
/// but no further than the ends of the list.
pub fn relative_level(current: usize, delta: isize, count: usize) -> (index: usize)
    requires
        count > 0,
    ensures
        index == relative(current, delta, count),
{
    if delta >= 0 {
        let room: usize = if current >= count - 1 {
            0
        } else {
            count - 1 - current
        };
        if current > count - 1 {
            count - 1
        } else if delta as usize >= room {
            count - 1
        } else {
            current + delta as usize
        }
    } else {
        let back: usize = if delta == isize::MIN {
            usize::MAX / 2 + 1
        } else {
            (-delta) as usize
        };
        if back >= current {
            0
        } else if current - back > count - 1 {
            count - 1
        } else {
            current - back
        }
    }
}

/// What is to happen in one tick of the game.
#[derive(Debug)]
pub struct Intents {
    /// The steps that the player wants to take, in order.
    pub moves: Vec<Direction>,
    /// The movement tick is due: the objects that move by themselves have
    /// their turn.
    pub movement_due: bool,
    /// The transporter tick is due: the transporters have their turn.
    pub transporter_due: bool,
    /// The time of the effects is over: those of earlier ticks go, after
    /// the interaction rules have looked at them.
    pub effects_due: bool,
}

/// The objects after the first `k` steps that the player wanted to take; a
/// step that the player cannot take is left out.
pub open spec fn after_moves(
    objects: Seq<GridObject>,
    dimensions: Dimensions,
    moves: Seq<Direction>,
    k: int,
) -> Seq<GridObject>
    decreases k,
{
    if k <= 0 {
        objects
    } else {
        let before = after_moves(objects, dimensions, moves, k - 1);
        let delta = moves[k - 1].spec_to_delta();
        if player_moves(before, dimensions, delta) {
            after_player_move(before, dimensions, delta)
        } else {
            before
        }
    }
}

/// The objects after the movement of one tick: the steps of the player, the
/// turn of the objects that move by themselves if it is due, and the turn
/// of the transporters if it is due.
pub open spec fn after_movement(
    objects: Seq<GridObject>,
    dimensions: Dimensions,
    moves: Seq<Direction>,
    movement_due: bool,
    transporter_due: bool,
) -> Seq<GridObject> {
    let stepped = after_moves(objects, dimensions, moves, moves.len() as int);
    let moved = if movement_due {
        moved_upto(stepped, dimensions, stepped.len() as int)
    } else {
        stepped
    };
    if transporter_due {
        transported_upto(moved, dimensions, moved.len() as int).0
    } else {
        moved
    }
}

/// The objects with their pictures turned the way they face.
pub open spec fn faced(objects: Seq<GridObject>) -> Seq<GridObject> {
    Seq::new(objects.len(), |i: int| facing(objects[i]))
}

/// One tick of the game, in this order: the player takes its steps; the
/// objects that move by themselves have their turn, if it is due; the
/// transporters have theirs, if it is due; then the interaction rules look
/// at where everything stands now; then the effects of earlier ticks go, if
/// their time is over, while those that the rules left in this tick stay;
/// at last the pictures turn the way the objects face.
pub fn tick(world: &mut World, intents: &Intents) -> (outcome: RulesOutcome)
    ensures
        final(world).dimensions == old(world).dimensions,
        ({
            let moved = after_movement(
                old(world).objects@,
                old(world).dimensions,
                intents.moves@,
                intents.movement_due,
                intents.transporter_due,
            );
            &&& final(world).objects@ == faced(
                after_rules_and_pruning(
                    moved,
                    old(world).pressed_triggers,
                    intents.effects_due,
                ),
            )
            &&& final(world).pressed_triggers == count_pressed(moved, moved.len() as int)
            &&& outcome.level_completed == exit_reached(moved)
            &&& outcome.player_died == player_dies(moved)
            &&& outcome.reload == player_is_lost(moved)
            &&& outcome.effects == (explosions(moved).len() + splashes(moved).len() > 0)
        }),
{
    let dimensions: Dimensions = world.dimensions;
    let ghost before = world.objects@;
    let mut i: usize = 0;
    while i < intents.moves.len()
        invariant
            i <= intents.moves.len(),
            world.dimensions == dimensions,
            world.pressed_triggers == old(world).pressed_triggers,
            world.objects@ == after_moves(before, dimensions, intents.moves@, i as int),
        decreases intents.moves.len() - i,
    {
        let direction: Direction = intents.moves[i];
        move_player(&mut world.objects, &dimensions, direction.to_delta());
        i += 1;
    }
    if intents.movement_due {
        move_objects(&mut world.objects, &dimensions);
    }
    if intents.transporter_due {
        check_for_transporter(&mut world.objects, &dimensions);
    }
    let outcome = run_rules_then_prune(
        &mut world.objects,
        &mut world.pressed_triggers,
        intents.effects_due,
    );
    update_entity_directions(&mut world.objects);
    outcome
}

} // verus!
