//! Networking core of a multiplayer game server: the length-prefixed wire
//! codec, the versioned packet-identity dispatch table, the per-connection
//! protocol state machine with its framing logic, and the actor task bridge
//! that serializes every cross-actor mutation.

pub mod bridge;
pub mod codec;
pub mod connection;
pub mod dispatch;
pub mod frame;
pub mod network;
pub mod packets;
pub mod server;
pub mod version;
pub mod wire;
