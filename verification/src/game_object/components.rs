//! The components a grid object is made of.

use vstd::prelude::*;
use vstd::string::*;

use crate::errors::UnknownDirection;
use crate::text::{chars_of, is_word};

verus! {

/// Game object position.
///
/// The top-left square of a level is position (1, 1).
#[derive(Clone, Copy, Debug, PartialEq, Eq, Structural, PartialOrd, Ord)]
pub struct Position {
    /// 1-based X coordinate of the object's position.
    pub x: i16,
    /// 1-based Y coordinate of the object's position.
    pub y: i16,
}

/// One of the four ways an object can face or move. Y grows downward.
#[derive(Clone, Copy, Debug, PartialEq, Eq, Structural, PartialOrd, Ord)]
pub enum Direction {
    Up,
    Right,
    Down,
    Left,
}

impl Default for Direction {
    fn default() -> (d: Self)
        ensures
            d == Direction::Up,
    {
        Direction::Up
    }
}

impl Direction {
    /// The opposite direction.
    pub open spec fn spec_inverse(self) -> Direction {
        match self {
            Direction::Up => Direction::Down,
            Direction::Right => Direction::Left,
            Direction::Down => Direction::Up,
            Direction::Left => Direction::Right,
        }
    }

    /// The direction a quarter turn counter-clockwise.
    pub open spec fn spec_left_hand(self) -> Direction {
        match self {
            Direction::Up => Direction::Left,
            Direction::Right => Direction::Up,
            Direction::Down => Direction::Right,
            Direction::Left => Direction::Down,
        }
    }

    /// The direction a quarter turn clockwise.
    pub open spec fn spec_right_hand(self) -> Direction {
        match self {
            Direction::Up => Direction::Right,
            Direction::Right => Direction::Down,
            Direction::Down => Direction::Left,
            Direction::Left => Direction::Up,
        }
    }

    /// The step `(dx, dy)` of one move in this direction.
    pub open spec fn spec_to_delta(self) -> (i16, i16) {
        match self {
            Direction::Up => (0i16, -1i16),
            Direction::Right => (1i16, 0i16),
            Direction::Down => (0i16, 1i16),
            Direction::Left => (-1i16, 0i16),
        }
    }

    /// The name under which the direction is written in level text.
    pub open spec fn spec_name(self) -> Seq<char> {
        match self {
            Direction::Up => "Up"@,
            Direction::Right => "Right"@,
            Direction::Down => "Down"@,
            Direction::Left => "Left"@,
        }
    }

    /// The direction that a name stands for, if any. Names are case-sensitive.
    pub open spec fn spec_from_name(name: Seq<char>) -> Option<Direction> {
        if name == "Up"@ {
            Some(Direction::Up)
        } else if name == "Right"@ {
            Some(Direction::Right)
        } else if name == "Down"@ {
            Some(Direction::Down)
        } else if name == "Left"@ {
            Some(Direction::Left)
        } else {
            None
        }
    }

    /// The position of the direction in the order Up, Right, Down, Left.
    pub open spec fn spec_index(self) -> u8 {
        match self {
            Direction::Up => 0u8,
            Direction::Right => 1u8,
            Direction::Down => 2u8,
            Direction::Left => 3u8,
        }
    }

    #[verifier::when_used_as_spec(spec_inverse)]
    pub fn inverse(self) -> (d: Self)
        ensures
            d == self.spec_inverse(),
    {
        match self {
            Self::Up => Self::Down,
            Self::Right => Self::Left,
            Self::Down => Self::Up,
            Self::Left => Self::Right,
        }
    }

    #[verifier::when_used_as_spec(spec_left_hand)]
    pub fn left_hand(self) -> (d: Self)
        ensures
            d == self.spec_left_hand(),
    {
        match self {
            Self::Up => Self::Left,
            Self::Right => Self::Up,
            Self::Down => Self::Right,
            Self::Left => Self::Down,
        }
    }

    #[verifier::when_used_as_spec(spec_right_hand)]
    pub fn right_hand(self) -> (d: Self)
        ensures
            d == self.spec_right_hand(),
    {
        match self {
            Self::Up => Self::Right,
            Self::Right => Self::Down,
            Self::Down => Self::Left,
            Self::Left => Self::Up,
        }
    }

    /// Returns a `(dx, dy)` tuple for the direction.
    #[verifier::when_used_as_spec(spec_to_delta)]
    pub fn to_delta(self) -> (delta: (i16, i16))
        ensures
            delta == self.spec_to_delta(),
    {
        match self {
            Self::Up => (0, -1),
            Self::Right => (1, 0),
            Self::Down => (0, 1),
            Self::Left => (-1, 0),
        }
    }

    /// The position of the direction in the order Up, Right, Down, Left.
    #[verifier::when_used_as_spec(spec_index)]
    pub fn index(self) -> (i: u8)
        ensures
            i == self.spec_index(),
    {
        match self {
            Self::Up => 0,
            Self::Right => 1,
            Self::Down => 2,
            Self::Left => 3,
        }
    }

    /// The name of the direction as a string slice.
    pub fn name(self) -> (s: &'static str)
        ensures
            s@ == self.spec_name(),
    {
        match self {
            Self::Up => "Up",
            Self::Right => "Right",
            Self::Down => "Down",
            Self::Left => "Left",
        }
    }

    /// The name of the direction.
    pub fn to_string(&self) -> (s: String)
        ensures
            s@ == self.spec_name(),
    {
        String::from_str(self.name())
    }

    /// Reads a direction from the characters of its name.
    pub fn from_chars(name: &[char]) -> (r: Option<Direction>)
        ensures
            r == Self::spec_from_name(name@),
    {
        if is_word(name, "Up") {
            Some(Self::Up)
        } else if is_word(name, "Right") {
            Some(Self::Right)
        } else if is_word(name, "Down") {
            Some(Self::Down)
        } else if is_word(name, "Left") {
            Some(Self::Left)
        } else {
            None
        }
    }

    /// Reads a direction from its name.
    pub fn from_str(direction: &str) -> (r: Result<Self, UnknownDirection>)
        ensures
            r is Ok <==> Self::spec_from_name(direction@) is Some,
            r matches Ok(d) ==> Self::spec_from_name(direction@) == Some(d),
    {
        let chars = chars_of(direction);
        match Self::from_chars(chars.as_slice()) {
            Some(d) => Ok(d),
            None => Err(UnknownDirection),
        }
    }
}

/// An entity that prevents the player as well as other moving entities from
/// moving when on the same position.
///
/// Can be temporarily disabled. This is used for transporters, which will
/// temporarily stop blocking movement of objects they cannot push further.
#[derive(Clone, Copy, Debug, PartialEq, Eq, Structural)]
pub enum BlocksMovement {
    Enabled,
    Disabled,
}

impl Default for BlocksMovement {
    fn default() -> (b: Self)
        ensures
            b == BlocksMovement::Enabled,
    {
        BlocksMovement::Enabled
    }
}

/// Movable entities move by themselves.
///
/// They face a given [`Direction`], while the variant decides what will be
/// their next direction.
#[derive(Clone, Copy, Debug, PartialEq, Eq, Structural)]
pub enum Movable {
    /// Bounces back in the opposite direction whenever they cannot move
    /// further in their current direction.
    Bounce,
    /// Turns right whenever they can, while following whatever obstacles
    /// they have on their right.
    FollowRightHand,
}

/// Weight of an entity.
#[derive(Clone, Copy, Debug, PartialEq, Eq, Structural, PartialOrd, Ord)]
pub enum Weight {
    Light,
    Heavy,
}

impl Default for Weight {
    fn default() -> (w: Self)
        ensures
            w == Weight::Light,
    {
        Weight::Light
    }
}

} // verus!
