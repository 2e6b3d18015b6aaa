//! Grid objects: their components, their kinds and the rules they obey.

pub mod animation;
pub mod behaviors;
pub mod bounds;
pub mod components;
pub mod contacts;
pub mod movement;
pub mod object_bundles;
pub mod object_type;
pub mod right_hand;
pub mod travel;
