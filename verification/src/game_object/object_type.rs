//! The kinds of object a level can hold.

use vstd::prelude::*;
use vstd::string::*;

use crate::errors::UnknownObjectType;
use crate::text::{chars_of, is_word};

verus! {

/// The kinds of object that a level file can place on the grid, in the order
/// in which their sections are written.
#[derive(Clone, Copy, Debug, PartialEq, Eq, Structural, PartialOrd, Ord)]
pub enum ObjectType {
    BlueBlock,
    BouncingBall,
    Button,
    Creature1,
    Exit,
    Gate,
    Mine,
    Player,
    PurpleBlock,
    Raft,
    RedBlock,
    Transporter,
    Water,
    YellowBlock,
}

/// The number of object types.
pub const OBJECT_TYPES: usize = 14;

impl ObjectType {
    /// The name under which the type is written in level text.
    pub open spec fn spec_name(self) -> Seq<char> {
        match self {
            ObjectType::BlueBlock => "BlueBlock"@,
            ObjectType::BouncingBall => "BouncingBall"@,
            ObjectType::Button => "Button"@,
            ObjectType::Creature1 => "Creature1"@,
            ObjectType::Exit => "Exit"@,
            ObjectType::Gate => "Gate"@,
            ObjectType::Mine => "Mine"@,
            ObjectType::Player => "Player"@,
            ObjectType::PurpleBlock => "PurpleBlock"@,
            ObjectType::Raft => "Raft"@,
            ObjectType::RedBlock => "RedBlock"@,
            ObjectType::Transporter => "Transporter"@,
            ObjectType::Water => "Water"@,
            ObjectType::YellowBlock => "YellowBlock"@,
        }
    }

    /// The type that a section name stands for, if any. Names are
    /// case-sensitive.
    pub open spec fn spec_from_name(name: Seq<char>) -> Option<ObjectType> {
        if name == "BlueBlock"@ {
            Some(ObjectType::BlueBlock)
        } else if name == "BouncingBall"@ {
            Some(ObjectType::BouncingBall)
        } else if name == "Button"@ {
            Some(ObjectType::Button)
        } else if name == "Creature1"@ {
            Some(ObjectType::Creature1)
        } else if name == "Exit"@ {
            Some(ObjectType::Exit)
        } else if name == "Gate"@ {
            Some(ObjectType::Gate)
        } else if name == "Mine"@ {
            Some(ObjectType::Mine)
        } else if name == "Player"@ {
            Some(ObjectType::Player)
        } else if name == "PurpleBlock"@ {
            Some(ObjectType::PurpleBlock)
        } else if name == "Raft"@ {
            Some(ObjectType::Raft)
        } else if name == "RedBlock"@ {
            Some(ObjectType::RedBlock)
        } else if name == "Transporter"@ {
            Some(ObjectType::Transporter)
        } else if name == "Water"@ {
            Some(ObjectType::Water)
        } else if name == "YellowBlock"@ {
            Some(ObjectType::YellowBlock)
        } else {
            None
        }
    }

    /// The position of the type among all types.
    pub open spec fn spec_index(self) -> usize {
        match self {
            ObjectType::BlueBlock => 0usize,
            ObjectType::BouncingBall => 1usize,
            ObjectType::Button => 2usize,
            ObjectType::Creature1 => 3usize,
            ObjectType::Exit => 4usize,
            ObjectType::Gate => 5usize,
            ObjectType::Mine => 6usize,
            ObjectType::Player => 7usize,
            ObjectType::PurpleBlock => 8usize,
            ObjectType::Raft => 9usize,
            ObjectType::RedBlock => 10usize,
            ObjectType::Transporter => 11usize,
            ObjectType::Water => 12usize,
            ObjectType::YellowBlock => 13usize,
        }
    }

    /// The type at position `index` among all types.
    pub open spec fn spec_from_index(index: usize) -> ObjectType {
        match index {
            0usize => ObjectType::BlueBlock,
            1usize => ObjectType::BouncingBall,
            2usize => ObjectType::Button,
            3usize => ObjectType::Creature1,
            4usize => ObjectType::Exit,
            5usize => ObjectType::Gate,
            6usize => ObjectType::Mine,
            7usize => ObjectType::Player,
            8usize => ObjectType::PurpleBlock,
            9usize => ObjectType::Raft,
            10usize => ObjectType::RedBlock,
            11usize => ObjectType::Transporter,
            12usize => ObjectType::Water,
            _ => ObjectType::YellowBlock,
        }
    }

    /// The position of the type among all types.
    #[verifier::when_used_as_spec(spec_index)]
    pub fn index(self) -> (i: usize)
        ensures
            i == self.spec_index(),
            i < OBJECT_TYPES,
            Self::spec_from_index(i) == self,
    {
        match self {
            Self::BlueBlock => 0,
            Self::BouncingBall => 1,
            Self::Button => 2,
            Self::Creature1 => 3,
            Self::Exit => 4,
            Self::Gate => 5,
            Self::Mine => 6,
            Self::Player => 7,
            Self::PurpleBlock => 8,
            Self::Raft => 9,
            Self::RedBlock => 10,
            Self::Transporter => 11,
            Self::Water => 12,
            Self::YellowBlock => 13,
        }
    }

    /// The type at position `index` among all types.
    #[verifier::when_used_as_spec(spec_from_index)]
    pub fn from_index(index: usize) -> (t: Self)
        requires
            index < OBJECT_TYPES,
        ensures
            t == Self::spec_from_index(index),
            t.spec_index() == index,
    {
        match index {
            0 => Self::BlueBlock,
            1 => Self::BouncingBall,
            2 => Self::Button,
            3 => Self::Creature1,
            4 => Self::Exit,
            5 => Self::Gate,
            6 => Self::Mine,
            7 => Self::Player,
            8 => Self::PurpleBlock,
            9 => Self::Raft,
            10 => Self::RedBlock,
            11 => Self::Transporter,
            12 => Self::Water,
            _ => Self::YellowBlock,
        }
    }

    /// The name of the type as a string slice.
    pub fn name(self) -> (s: &'static str)
        ensures
            s@ == self.spec_name(),
    {
        match self {
            Self::BlueBlock => "BlueBlock",
            Self::BouncingBall => "BouncingBall",
            Self::Button => "Button",
            Self::Creature1 => "Creature1",
            Self::Exit => "Exit",
            Self::Gate => "Gate",
            Self::Mine => "Mine",
            Self::Player => "Player",
            Self::PurpleBlock => "PurpleBlock",
            Self::Raft => "Raft",
            Self::RedBlock => "RedBlock",
            Self::Transporter => "Transporter",
            Self::Water => "Water",
            Self::YellowBlock => "YellowBlock",
        }
    }

    /// The name of the type.
    pub fn to_string(&self) -> (s: String)
        ensures
            s@ == self.spec_name(),
    {
        String::from_str(self.name())
    }

    /// Reads an object type from the characters of its name.
    pub fn from_chars(name: &[char]) -> (r: Option<ObjectType>)
        ensures
            r == Self::spec_from_name(name@),
    {
        if is_word(name, "BlueBlock") {
            Some(Self::BlueBlock)
        } else if is_word(name, "BouncingBall") {
            Some(Self::BouncingBall)
        } else if is_word(name, "Button") {
            Some(Self::Button)
        } else if is_word(name, "Creature1") {
            Some(Self::Creature1)
        } else if is_word(name, "Exit") {
            Some(Self::Exit)
        } else if is_word(name, "Gate") {
            Some(Self::Gate)
        } else if is_word(name, "Mine") {
            Some(Self::Mine)
        } else if is_word(name, "Player") {
            Some(Self::Player)
        } else if is_word(name, "PurpleBlock") {
            Some(Self::PurpleBlock)
        } else if is_word(name, "Raft") {
            Some(Self::Raft)
        } else if is_word(name, "RedBlock") {
            Some(Self::RedBlock)
        } else if is_word(name, "Transporter") {
            Some(Self::Transporter)
        } else if is_word(name, "Water") {
            Some(Self::Water)
        } else if is_word(name, "YellowBlock") {
            Some(Self::YellowBlock)
        } else {
            None
        }
    }

    /// Reads an object type from its name.
    pub fn from_str(object_type: &str) -> (r: Result<Self, UnknownObjectType>)
        ensures
            r is Ok <==> Self::spec_from_name(object_type@) is Some,
            r matches Ok(t) ==> Self::spec_from_name(object_type@) == Some(t),
    {
        let chars = chars_of(object_type);
        match Self::from_chars(chars.as_slice()) {
            Some(t) => Ok(t),
            None => Err(UnknownObjectType),
        }
    }

    /// Every type has its position among the types.
    pub proof fn lemma_index_in_range(self)
        ensures
            self.spec_index() < OBJECT_TYPES,
            Self::spec_from_index(self.spec_index()) == self,
    {
    }

    /// Two types at the same position are the same type.
    pub proof fn lemma_index_identifies(a: ObjectType, b: ObjectType)
        requires
            a.spec_index() == b.spec_index(),
        ensures
            a == b,
    {
    }

    /// Every type is read back from its own name.
    pub proof fn lemma_name_round_trip(self)
        ensures
            Self::spec_from_name(self.spec_name()) == Some(self),
            self.spec_name().len() > 0,
            self.spec_name() != "General"@,
    {
        reveal_strlit("BlueBlock");
        reveal_strlit("BouncingBall");
        reveal_strlit("Button");
        reveal_strlit("Creature1");
        reveal_strlit("Exit");
        reveal_strlit("Gate");
        reveal_strlit("Mine");
        reveal_strlit("Player");
        reveal_strlit("PurpleBlock");
        reveal_strlit("Raft");
        reveal_strlit("RedBlock");
        reveal_strlit("Transporter");
        reveal_strlit("Water");
        reveal_strlit("YellowBlock");
        reveal_strlit("General");
        assert("BlueBlock"@.len() == 9 && "BlueBlock"@[0] == 'B');
        assert("BouncingBall"@.len() == 12 && "BouncingBall"@[0] == 'B');
        assert("Button"@.len() == 6 && "Button"@[0] == 'B');
        assert("Creature1"@.len() == 9 && "Creature1"@[0] == 'C');
        assert("Exit"@.len() == 4 && "Exit"@[0] == 'E');
        assert("Gate"@.len() == 4 && "Gate"@[0] == 'G');
        assert("Mine"@.len() == 4 && "Mine"@[0] == 'M');
        assert("Player"@.len() == 6 && "Player"@[0] == 'P');
        assert("PurpleBlock"@.len() == 11 && "PurpleBlock"@[0] == 'P');
        assert("Raft"@.len() == 4 && "Raft"@[0] == 'R');
        assert("RedBlock"@.len() == 8 && "RedBlock"@[0] == 'R');
        assert("Transporter"@.len() == 11 && "Transporter"@[0] == 'T');
        assert("Water"@.len() == 5 && "Water"@[0] == 'W');
        assert("YellowBlock"@.len() == 11 && "YellowBlock"@[0] == 'Y');
        assert("General"@.len() == 7 && "General"@[0] == 'G');
    }
}

} // verus!
