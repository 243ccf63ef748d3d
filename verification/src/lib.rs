//! The handshake surface of a game server, without the game: VarInt and packet
//! framing, the status, ping and login exchanges, and the connection state machine
//! that strings them together. Nothing here touches a socket; callers feed bytes in
//! and write out the bytes they get back.

pub mod config;
pub mod error;
pub mod json;
pub mod models;
pub mod protocol;
pub mod server;
