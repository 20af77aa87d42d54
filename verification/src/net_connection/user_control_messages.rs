//! User control events.

pub mod reader;
