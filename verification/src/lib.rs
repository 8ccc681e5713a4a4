//! A minimal reliable-delivery transport for unreliable datagrams: a fixed
//! 14-byte packet header with a two-level checksum, and the handshake that
//! opens a connection before data is exchanged.

pub mod errors;
pub mod laws;
pub mod manager;
pub mod packet;
