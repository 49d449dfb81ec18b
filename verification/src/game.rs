//! Game-side logic of the client.

pub mod object_action;
pub mod object_place;
pub mod sprite;
pub mod world;
