//! The core of a client for a line-based grid game: a model of the world that
//! the server describes event by event, and the rule by which the client picks
//! its next move.

pub mod cell;
pub mod direction;
pub mod world;
pub mod beam;
pub mod text;
pub mod protocol;
pub mod client;
pub mod render;
