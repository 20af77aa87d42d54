//! The chunk stream layer: headers, fragmentation and reassembly.

pub mod packets;
pub mod reader;
pub mod roundtrip;
pub mod state;
pub mod writer;
