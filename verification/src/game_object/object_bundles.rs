//! Grid objects and the traits that each kind of object starts with.

use vstd::prelude::*;

use crate::game_object::components::{BlocksMovement, Direction, Movable, Position, Weight};
use crate::game_object::movement::CollisionObject;
use crate::game_object::object_type::ObjectType;
use crate::level::Dimensions;

verus! {

/// An object on the grid: a position and the traits that the rules read.
#[derive(Clone, Copy, Debug, PartialEq, Eq, Structural)]
pub struct GridObject {
    pub position: Position,
    /// The kind under which the object is stored in a level; effects such as
    /// explosions have none and are never stored.
    pub object_type: Option<ObjectType>,
    /// The way the object faces, for objects that face any way.
    pub direction: Option<Direction>,
    /// How the object moves by itself, if it does.
    pub movable: Option<Movable>,
    /// Whether the object holds what stands on it in place, for objects that
    /// can.
    pub blocks_movement: Option<BlocksMovement>,
    /// The weight of the object, where one was given.
    pub weight: Option<Weight>,
    /// The number of frames among which the picture of the object cycles.
    pub animatable: Option<usize>,
    /// The frame that the picture of the object shows, for objects with
    /// several.
    pub frame: Option<usize>,
    /// Keeps others from entering its cell.
    pub massive: bool,
    /// May be displaced by a push.
    pub pushable: bool,
    /// Rejects being pushed on, massive or not.
    pub blocks_pushes: bool,
    /// Does not sink in liquid.
    pub floatable: bool,
    /// Makes what shares its cell sink, unless something there floats.
    pub liquid: bool,
    /// Kills the player on contact.
    pub deadly: bool,
    /// Explodes on contact.
    pub explosive: bool,
    /// Counts as pressed while something rests on it.
    pub trigger: bool,
    /// A gate: massive or not according to the triggers.
    pub openable: bool,
    /// Conveys what stands on it in the direction it faces.
    pub transporter: bool,
    /// Disappears shortly after it appeared.
    pub volatile: bool,
    /// Controlled by the player.
    pub player: bool,
    /// Completes the level when the player steps on it.
    pub exit: bool,
}

impl GridObject {
    /// An object at `position` without any trait.
    pub open spec fn bare(position: Position) -> GridObject {
        GridObject {
            position,
            object_type: None,
            direction: None,
            movable: None,
            blocks_movement: None,
            weight: None,
            animatable: None,
            frame: None,
            massive: false,
            pushable: false,
            blocks_pushes: false,
            floatable: false,
            liquid: false,
            deadly: false,
            explosive: false,
            trigger: false,
            openable: false,
            transporter: false,
            volatile: false,
            player: false,
            exit: false,
        }
    }

    /// An object of type `object_type` at `position` without any other trait.
    pub open spec fn typed(object_type: ObjectType, position: Position) -> GridObject {
        GridObject { object_type: Some(object_type), ..Self::bare(position) }
    }

    /// What the movement rules read of the object.
    pub open spec fn collision(self) -> CollisionObject {
        CollisionObject {
            position: self.position,
            pushable: self.pushable,
            massive: self.massive,
            blocks_pushes: self.blocks_pushes,
            blocks_movement: self.blocks_movement,
        }
    }

    /// Whether the object stands on the grid.
    pub open spec fn on_grid(self, dimensions: Dimensions) -> bool {
        dimensions.contains(self.position.x as int, self.position.y as int)
    }

    /// An object at `position` without any trait.
    pub fn new(position: Position) -> (object: GridObject)
        ensures
            object == Self::bare(position),
    {
        GridObject {
            position,
            object_type: None,
            direction: None,
            movable: None,
            blocks_movement: None,
            weight: None,
            animatable: None,
            frame: None,
            massive: false,
            pushable: false,
            blocks_pushes: false,
            floatable: false,
            liquid: false,
            deadly: false,
            explosive: false,
            trigger: false,
            openable: false,
            transporter: false,
            volatile: false,
            player: false,
            exit: false,
        }
    }

    /// What the movement rules read of the object.
    pub fn to_collision(&self) -> (object: CollisionObject)
        ensures
            object == self.collision(),
    {
        CollisionObject {
            position: self.position,
            pushable: self.pushable,
            massive: self.massive,
            blocks_pushes: self.blocks_pushes,
            blocks_movement: self.blocks_movement,
        }
    }

    /// Whether `self` and `other` share a cell.
    pub fn shares_cell(&self, other: &GridObject) -> (r: bool)
        ensures
            r == (self.position == other.position),
    {
        self.position.x == other.position.x && self.position.y == other.position.y
    }

    /// The picture of an explosion: it goes away by itself.
    pub open spec fn spec_explosion(position: Position) -> GridObject {
        GridObject { volatile: true, ..Self::bare(position) }
    }

    /// The grave left where the player died: it is massive.
    pub open spec fn spec_grave(position: Position) -> GridObject {
        GridObject { massive: true, ..Self::bare(position) }
    }

    /// The picture of a splash: it floats and goes away by itself.
    pub open spec fn spec_splash(position: Position) -> GridObject {
        GridObject { floatable: true, volatile: true, ..Self::bare(position) }
    }

    /// The picture of an explosion at `position`.
    pub fn explosion(position: Position) -> (object: GridObject)
        ensures
            object == Self::spec_explosion(position),
    {
        let mut object = Self::new(position);
        object.volatile = true;
        object
    }

    /// A grave at `position`.
    pub fn grave(position: Position) -> (object: GridObject)
        ensures
            object == Self::spec_grave(position),
    {
        let mut object = Self::new(position);
        object.massive = true;
        object
    }

    /// The picture of a splash at `position`.
    pub fn splash(position: Position) -> (object: GridObject)
        ensures
            object == Self::spec_splash(position),
    {
        let mut object = Self::new(position);
        object.floatable = true;
        object.volatile = true;
        object
    }
}

/// The object of type `object_type` as it starts out at `position`. Only
/// bouncing balls, creatures and transporters face a direction.
pub open spec fn spawned(
    object_type: ObjectType,
    position: Position,
    direction: Direction,
) -> GridObject {
    let object = GridObject::typed(object_type, position);
    match object_type {
        ObjectType::BlueBlock => GridObject { massive: true, pushable: true, ..object },
        ObjectType::BouncingBall => GridObject {
            deadly: true,
            direction: Some(direction),
            movable: Some(Movable::Bounce),
            ..object
        },
        ObjectType::Button => GridObject { trigger: true, ..object },
        ObjectType::Creature1 => GridObject {
            deadly: true,
            direction: Some(direction),
            movable: Some(Movable::FollowRightHand),
            frame: Some(direction.spec_index() as usize),
            ..object
        },
        ObjectType::Exit => GridObject { exit: true, ..object },
        ObjectType::Gate => GridObject { openable: true, massive: true, frame: Some(0), ..object },
        ObjectType::Mine => GridObject { explosive: true, ..object },
        ObjectType::Player => GridObject { player: true, ..object },
        ObjectType::PurpleBlock => object,
        ObjectType::Raft => GridObject { floatable: true, pushable: true, ..object },
        ObjectType::RedBlock => GridObject { massive: true, ..object },
        ObjectType::Transporter => GridObject {
            transporter: true,
            direction: Some(direction),
            blocks_movement: Some(BlocksMovement::Enabled),
            frame: Some(0),
            ..object
        },
        ObjectType::Water => GridObject {
            liquid: true,
            animatable: Some(3),
            frame: Some(0),
            ..object
        },
        ObjectType::YellowBlock => object,
    }
}

/// Makes the object of type `object_type` as it starts out at `position`.
pub fn spawn_object_of_type(
    object_type: ObjectType,
    position: Position,
    direction: Direction,
) -> (object: GridObject)
    ensures
        object == spawned(object_type, position, direction),
{
    let mut object = GridObject::new(position);
    object.object_type = Some(object_type);
    match object_type {
        ObjectType::BlueBlock => {
            object.massive = true;
            object.pushable = true;
        },
        ObjectType::BouncingBall => {
            object.deadly = true;
            object.direction = Some(direction);
            object.movable = Some(Movable::Bounce);
        },
        ObjectType::Button => {
            object.trigger = true;
        },
        ObjectType::Creature1 => {
            object.deadly = true;
            object.direction = Some(direction);
            object.movable = Some(Movable::FollowRightHand);
            object.frame = Some(direction.index() as usize);
        },
        ObjectType::Exit => {
            object.exit = true;
        },
        ObjectType::Gate => {
            object.openable = true;
            object.massive = true;
            object.frame = Some(0);
        },
        ObjectType::Mine => {
            object.explosive = true;
        },
        ObjectType::Player => {
            object.player = true;
        },
        ObjectType::PurpleBlock => {},
        ObjectType::Raft => {
            object.floatable = true;
            object.pushable = true;
        },
        ObjectType::RedBlock => {
            object.massive = true;
        },
        ObjectType::Transporter => {
            object.transporter = true;
            object.direction = Some(direction);
            object.blocks_movement = Some(BlocksMovement::Enabled);
            object.frame = Some(0);
        },
        ObjectType::Water => {
            object.liquid = true;
            object.animatable = Some(3);
            object.frame = Some(0);
        },
        ObjectType::YellowBlock => {},
    }
    object
}

} // verus!
