//! An RTMP (version 3) client core: handshake, chunk stream codec, message
//! classification, command transactions and shared objects, over any reliable
//! byte transport.

pub mod amf;
pub mod errors;
pub mod transport;
pub mod utils;
pub mod chunk;
pub mod context;
pub mod handshake;
pub mod net_connection;
pub mod shared_object;
