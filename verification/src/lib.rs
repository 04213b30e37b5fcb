//! A host for authoritative, room-based multiplayer games.
//!
//! A game engine is a [`state_machine::StateMachine`]: it receives the typed
//! messages of the matchmaking service and answers with addressed notices.
//! Two engines are included, [`splendor`] and [`uno`].

pub mod fault;
pub mod game_manager;
pub mod msg_builder;
pub mod network_interface;
pub mod protocol;
pub mod random;
pub mod seqs;
pub mod splendor;
pub mod state_machine;
pub mod uno;
pub mod util;
