//! A multiplayer voxel world: the server that owns it, the protocol that
//! clients and server speak, and the network half of a client.
//!
//! Everything here is pure. Sockets, files, queues and threads live with the
//! caller, which hands in bytes, commands and events and carries out what
//! comes back: frames to send, chunks to sample, files to write.

pub mod game;
pub mod misc;
pub mod mygl;
pub mod net;
pub mod server;
