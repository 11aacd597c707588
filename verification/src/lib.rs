//! The decisions of a signaling server: one websocket per client, chat messages
//! relayed between clients, and one peer connection per client that the server
//! negotiates itself.
//!
//! Sockets, channels and peer connections are driven from outside: a driver
//! performs the actions that a [`session::Session`] asks for and hands back what
//! came of them.

pub mod clients;
pub mod forward;
pub mod history;
pub mod json;
pub mod laws;
pub mod message;
pub mod peer;
pub mod session;
pub mod track;
