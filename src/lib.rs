//! Decision and protocol core of an autonomous agent for a line-based,
//! quorum-driven resource game: the event codec, the session correlator,
//! the agent's belief about itself, the movement planner, the broadcast
//! rendezvous protocol and the decision engine.

pub mod text;
pub mod error;
pub mod inventory;
pub mod levels;
pub mod commands;
pub mod server_event;
pub mod session;
pub mod handshake;
pub mod movement;
pub mod player_state;
pub mod map;
pub mod vision;
pub mod broadcast;
pub mod decision;
pub mod actions;
