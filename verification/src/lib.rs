//! Rules of a tile-grid puzzle game: objects on a bounded integer grid that
//! move, push each other, sink, explode, press triggers and ride
//! transporters, together with the text format in which levels are stored.
//!
//! Every function is verified against the contract it states, but one: the
//! drawing of a random frame in `game_object::animation` calls `rand`, and
//! what its contract says of the number drawn is believed, not proved.

pub mod editor;
pub mod errors;
pub mod game_object;
pub mod level;
pub mod menu;
pub mod round_trip;
pub mod text;
pub mod world;

pub use editor::{spawn_selected_object, EditorObjectType};
pub use errors::{UnknownDirection, UnknownObjectType};
pub use game_object::animation::animate_objects;
pub use game_object::behaviors::{
    check_for_deadly, check_for_exit, check_for_explosive, check_for_game_over, check_for_liquid,
    check_for_triggers, despawn_volatile_objects, player_count, run_interaction_rules,
    run_rules_then_prune, update_entity_directions, RulesOutcome,
};
pub use game_object::components::{BlocksMovement, Direction, Movable, Position, Weight};
pub use game_object::contacts::{Effect, Outcome};
pub use game_object::movement::{move_object, CollisionObject};
pub use game_object::object_bundles::{spawn_object_of_type, GridObject};
pub use game_object::object_type::ObjectType;
pub use game_object::travel::{
    check_for_transporter, move_objects, move_player, single_player,
};
pub use level::{Dimensions, InitialPositionAndDirection, Level, LevelView};
pub use menu::{GameEvent, MenuButton, MenuState};
pub use world::{
    load_level, relative_level, save_level, spawn_level_objects, tick, Intents, World,
};
