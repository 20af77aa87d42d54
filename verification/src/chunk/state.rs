//! What the client remembers of each chunk stream.

use crate::chunk::packets::MessageTypeId;
use vstd::prelude::*;

verus! {

/// The last header seen on a chunk stream, resolved, and the part of the
/// current message that has arrived.
#[derive(Debug, PartialEq)]
pub struct ChunkStreamState {
    pub message_type_id: MessageTypeId,
    pub message_stream_id: u32,
    pub message_length: u32,
    /// The absolute timestamp of the current or last message.
    pub timestamp: u32,
    /// The delta that a header without one applies again.
    pub timestamp_delta: u32,
    /// Whether the header that began the current or last message had an
    /// extended timestamp.
    pub had_extended_timestamp: bool,
    /// How much of the current message has not arrived; 0 between messages.
    pub bytes_remaining: u32,
    /// How much of the current message has arrived; empty between messages.
    pub buffer: Vec<u8>,
}

/// A chunk stream's state, its buffer as a sequence.
pub struct ChunkStreamStateView {
    pub message_type_id: MessageTypeId,
    pub message_stream_id: u32,
    pub message_length: u32,
    pub timestamp: u32,
    pub timestamp_delta: u32,
    pub had_extended_timestamp: bool,
    pub bytes_remaining: u32,
    pub buffer: Seq<u8>,
}

impl View for ChunkStreamState {
    type V = ChunkStreamStateView;

    open spec fn view(&self) -> ChunkStreamStateView {
        ChunkStreamStateView {
            message_type_id: self.message_type_id,
            message_stream_id: self.message_stream_id,
            message_length: self.message_length,
            timestamp: self.timestamp,
            timestamp_delta: self.timestamp_delta,
            had_extended_timestamp: self.had_extended_timestamp,
            bytes_remaining: self.bytes_remaining,
            buffer: self.buffer@,
        }
    }
}

impl ChunkStreamStateView {
    /// Whether a message is under way on the stream.
    pub open spec fn in_progress(self) -> bool {
        self.bytes_remaining > 0
    }

    /// The length fits its 24 bits; what has arrived and what has not make
    /// up the message; between messages nothing is buffered.
    pub open spec fn wf(self) -> bool {
        &&& self.message_length <= 0xFF_FFFF
        &&& if self.bytes_remaining > 0 {
            self.buffer.len() + self.bytes_remaining == self.message_length
        } else {
            self.buffer.len() == 0
        }
    }
}

} // verus!
