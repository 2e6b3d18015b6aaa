//! Errors of the level text format.

use vstd::prelude::*;
use vstd::string::*;

verus! {

/// A direction name that is none of `Up`, `Right`, `Down`, `Left`.
#[derive(Debug)]
pub struct UnknownDirection;

impl UnknownDirection {
    /// The text of the error message.
    pub open spec fn message() -> Seq<char> {
        "unknown direction"@
    }

    /// The error message.
    pub fn to_string(&self) -> (s: String)
        ensures
            s@ == Self::message(),
    {
        String::from_str("unknown direction")
    }
}

/// A section name that is not the name of an object type.
#[derive(Debug)]
pub struct UnknownObjectType;

impl UnknownObjectType {
    /// The text of the error message.
    pub open spec fn message() -> Seq<char> {
        "unknown object type"@
    }

    /// The error message.
    pub fn to_string(&self) -> (s: String)
        ensures
            s@ == Self::message(),
    {
        String::from_str("unknown object type")
    }
}

} // verus!
