//! The card-shedding game.

pub mod card;
pub mod messages;
pub mod msg_builder;
pub mod state;
pub mod state_machine;
