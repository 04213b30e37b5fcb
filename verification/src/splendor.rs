//! The resource and card economy game.

pub mod laws;
pub mod messages;
pub mod model;
pub mod moves;
pub mod msg_builder;
pub mod setup;
pub mod state;
pub mod state_machine;
