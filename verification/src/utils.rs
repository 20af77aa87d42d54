//! Helpers shared by the codecs: byte-order primitives and the `tcUrl` parser.

pub mod bytes;
pub mod url;
