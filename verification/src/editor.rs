//! The level editor: the palette of objects and what a click on the grid
//! does.

use vstd::prelude::*;

use crate::game_object::components::{Direction, Position};
use crate::game_object::object_bundles::{spawn_object_of_type, spawned, GridObject};
use crate::game_object::object_type::ObjectType;
use crate::level::Dimensions;

verus! {

/// What the palette of the editor offers: the eraser, and each object that
/// can be placed, once for every way it can face.
#[derive(Clone, Copy, Debug, PartialEq, Eq, Structural, PartialOrd, Ord)]
pub enum EditorObjectType {
    Eraser,
    BlueBlock,
    BouncingBallUp,
    BouncingBallRight,
    BouncingBallDown,
    BouncingBallLeft,
    Button,
    Creature1Up,
    Creature1Right,
    Creature1Down,
    Creature1Left,
    Exit,
    Gate,
    Mine,
    Player,
    Raft,
    RedBlock,
    Water,
    /// Stands behind the last entry; the palette never offers it.
    __Last,
}

/// The number of entries of the palette.
pub const NUM_OBJECTS: i16 = 18;

impl EditorObjectType {
    /// The object type and the direction that the entry stands for; none for
    /// the eraser.
    pub open spec fn object_type_and_direction(self) -> Option<(ObjectType, Direction)> {
        match self {
            EditorObjectType::Eraser => None,
            EditorObjectType::BlueBlock => Some((ObjectType::BlueBlock, Direction::Up)),
            EditorObjectType::BouncingBallUp => Some((ObjectType::BouncingBall, Direction::Up)),
            EditorObjectType::BouncingBallRight => Some(
                (ObjectType::BouncingBall, Direction::Right),
            ),
            EditorObjectType::BouncingBallDown => Some((ObjectType::BouncingBall, Direction::Down)),
            EditorObjectType::BouncingBallLeft => Some((ObjectType::BouncingBall, Direction::Left)),
            EditorObjectType::Button => Some((ObjectType::Button, Direction::Up)),
            EditorObjectType::Creature1Up => Some((ObjectType::Creature1, Direction::Up)),
            EditorObjectType::Creature1Right => Some((ObjectType::Creature1, Direction::Right)),
            EditorObjectType::Creature1Down => Some((ObjectType::Creature1, Direction::Down)),
            EditorObjectType::Creature1Left => Some((ObjectType::Creature1, Direction::Left)),
            EditorObjectType::Exit => Some((ObjectType::Exit, Direction::Up)),
            EditorObjectType::Gate => Some((ObjectType::Gate, Direction::Up)),
            EditorObjectType::Mine => Some((ObjectType::Mine, Direction::Up)),
            EditorObjectType::Player => Some((ObjectType::Player, Direction::Up)),
            EditorObjectType::Raft => Some((ObjectType::Raft, Direction::Up)),
            EditorObjectType::RedBlock => Some((ObjectType::RedBlock, Direction::Up)),
            EditorObjectType::Water => Some((ObjectType::Water, Direction::Up)),
            EditorObjectType::__Last => None,
        }
    }

    /// The entry at place `value` of the palette, counted from 0.
    pub open spec fn at_place(value: i16) -> Option<EditorObjectType> {
        if value == 0 {
            Some(EditorObjectType::Eraser)
        } else if value == 1 {
            Some(EditorObjectType::Player)
        } else if value == 2 {
            Some(EditorObjectType::Exit)
        } else if value == 3 {
            Some(EditorObjectType::RedBlock)
        } else if value == 4 {
            Some(EditorObjectType::BlueBlock)
        } else if value == 5 {
            Some(EditorObjectType::BouncingBallUp)
        } else if value == 6 {
            Some(EditorObjectType::BouncingBallRight)
        } else if value == 7 {
            Some(EditorObjectType::BouncingBallDown)
        } else if value == 8 {
            Some(EditorObjectType::BouncingBallLeft)
        } else if value == 9 {
            Some(EditorObjectType::Water)
        } else if value == 10 {
            Some(EditorObjectType::Creature1Up)
        } else if value == 11 {
            Some(EditorObjectType::Creature1Right)
        } else if value == 12 {
            Some(EditorObjectType::Creature1Down)
        } else if value == 13 {
            Some(EditorObjectType::Creature1Left)
        } else if value == 14 {
            Some(EditorObjectType::Raft)
        } else if value == 15 {
            Some(EditorObjectType::Gate)
        } else if value == 16 {
            Some(EditorObjectType::Button)
        } else if value == 17 {
            Some(EditorObjectType::Mine)
        } else {
            None
        }
    }

    /// The object type and the direction that the entry stands for; none for
    /// the eraser.
    pub fn get_object_type_and_direction(self) -> (r: Option<(ObjectType, Direction)>)
        ensures
            r == self.object_type_and_direction(),
    {
        let object_type = match self {
            Self::BlueBlock => Some(ObjectType::BlueBlock),
            Self::BouncingBallUp
            | Self::BouncingBallRight
            | Self::BouncingBallDown
            | Self::BouncingBallLeft => Some(ObjectType::BouncingBall),
            Self::Button => Some(ObjectType::Button),
            Self::Creature1Up
            | Self::Creature1Right
            | Self::Creature1Down
            | Self::Creature1Left => Some(ObjectType::Creature1),
            Self::Exit => Some(ObjectType::Exit),
            Self::Gate => Some(ObjectType::Gate),
            Self::Mine => Some(ObjectType::Mine),
            Self::Player => Some(ObjectType::Player),
            Self::Raft => Some(ObjectType::Raft),
            Self::RedBlock => Some(ObjectType::RedBlock),
            Self::Water => Some(ObjectType::Water),
            Self::Eraser | Self::__Last => None,
        };
        let direction = match self {
            Self::BouncingBallUp => Direction::Up,
            Self::BouncingBallRight => Direction::Right,
            Self::BouncingBallDown => Direction::Down,
            Self::BouncingBallLeft => Direction::Left,
            Self::Creature1Up => Direction::Up,
            Self::Creature1Right => Direction::Right,
            Self::Creature1Down => Direction::Down,
            Self::Creature1Left => Direction::Left,
            _ => Direction::Up,
        };
        match object_type {
            Some(object_type) => Some((object_type, direction)),
            None => None,
        }
    }

    /// The entry at place `value` of the palette, counted from 0.
    pub fn try_from(value: i16) -> (r: Result<Self, ()>)
        ensures
            r is Ok <==> 0 <= value < NUM_OBJECTS,
            r matches Ok(entry) ==> Self::at_place(value) == Some(entry),
    {
        let object_type = match value {
            0 => Self::Eraser,
            1 => Self::Player,
            2 => Self::Exit,
            3 => Self::RedBlock,
            4 => Self::BlueBlock,
            5 => Self::BouncingBallUp,
            6 => Self::BouncingBallRight,
            7 => Self::BouncingBallDown,
            8 => Self::BouncingBallLeft,
            9 => Self::Water,
            10 => Self::Creature1Up,
            11 => Self::Creature1Right,
            12 => Self::Creature1Down,
            13 => Self::Creature1Left,
            14 => Self::Raft,
            15 => Self::Gate,
            16 => Self::Button,
            17 => Self::Mine,
            _ => {
                return Err(());
            },
        };
        Ok(object_type)
    }
}

/// Those of the first `k` objects that do not stand at `position`, in order.
pub open spec fn cleared(objects: Seq<GridObject>, position: Position, k: int) -> Seq<GridObject>
    decreases k,
{
    if k <= 0 {
        Seq::empty()
    } else if objects[k - 1].position == position {
        cleared(objects, position, k - 1)
    } else {
        cleared(objects, position, k - 1).push(objects[k - 1])
    }
}

/// What a click with `selected` puts on the cell at `position`: the object
/// that the entry stands for if the cell is on the grid, and nothing
/// otherwise.
pub open spec fn put_down(
    selected: EditorObjectType,
    dimensions: Dimensions,
    position: Position,
) -> Seq<GridObject> {
    match selected.object_type_and_direction() {
        Some((object_type, direction)) if dimensions.contains(
            position.x as int,
            position.y as int,
        ) => seq![spawned(object_type, position, direction)],
        _ => Seq::empty(),
    }
}

/// A click on the cell at `position` while `selected` is chosen: whatever
/// stood on the cell goes, and the chosen object appears there if the cell
/// is on the grid. The eraser only clears the cell.
pub fn spawn_selected_object(
    objects: &mut Vec<GridObject>,
    dimensions: &Dimensions,
    selected: EditorObjectType,
    position: Position,
)
    ensures
        final(objects)@ == cleared(old(objects)@, position, old(objects).len() as int) + put_down(
            selected,
            *dimensions,
            position,
        ),
{
    let mut kept: Vec<GridObject> = Vec::new();
    let mut i: usize = 0;
    while i < objects.len()
        invariant
            i <= objects.len(),
            objects@ == old(objects)@,
            kept@ == cleared(objects@, position, i as int),
        decreases objects.len() - i,
    {
        let object: GridObject = objects[i];
        if !(object.position.x == position.x && object.position.y == position.y) {
            kept.push(object);
        }
        i += 1;
    }
    let ghost rest = kept@;
    if dimensions.holds(position.x as i32, position.y as i32) {
        match selected.get_object_type_and_direction() {
            Some((object_type, direction)) => {
                kept.push(spawn_object_of_type(object_type, position, direction));
            },
            None => {},
        }
    }
    assert(kept@ =~= rest + put_down(selected, *dimensions, position));
    *objects = kept;
}

} // verus!
