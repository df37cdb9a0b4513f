//! The multiplayer-match listener: the pure cursor machine over fetched
//! events, the decisions the poller makes around delivery, and the data the
//! notification cards are built from.

pub mod state;
pub mod poller;
pub mod listen_command;
pub mod notify;
