//! What is written is what is read: chunks and whole messages survive the
//! way over the wire.

use crate::chunk::packets::{
    ChunkBasicHeader, ChunkMessageHeader, ExtendedTimestamp, RTMPChunkView,
    EXTENDED_TIMESTAMP_MARKER,
};
use crate::chunk::reader::{
    lemma_chunk_length, lemma_read_chunk_parts, lemma_read_chunk_prefix, spec_accept, spec_begin,
    spec_expects_extended, spec_extended_of, spec_payload_len, spec_prev, spec_read_chunk,
    spec_read_message, ChunkStep, MessageStep,
};
use crate::chunk::state::ChunkStreamStateView;
use crate::chunk::writer::{
    spec_continuation_bytes, spec_extended, spec_first_chunk, spec_first_header,
    spec_message_bytes, spec_min, spec_next_chunk, spec_timestamp_field,
};
use crate::net_connection::packets::RTMPMessageView;
use crate::utils::bytes::{lemma_u32_be_roundtrip, u32_be_bytes};
use vstd::prelude::*;

verus! {

/// The value of the extended timestamp of a chunk, if it has one.
pub open spec fn spec_extended_value(extended_timestamp: Option<ExtendedTimestamp>) -> Option<u32> {
    match extended_timestamp {
        Some(ExtendedTimestamp(t)) => Some(t),
        None => None,
    }
}

/// Whether a chunk can stand where the chunk streams are as given: its
/// headers hold together, its basic header names the format of its message
/// header, it has an extended timestamp exactly where one is due, its
/// headers may follow what came before on its chunk stream, and it carries
/// as much payload as the chunk size and the rest of the message allow.
pub open spec fn spec_chunk_fits(
    chunk: RTMPChunkView,
    chunk_size: u32,
    streams: Map<u32, ChunkStreamStateView>,
) -> bool {
    let id = chunk.basic_header.chunk_stream_id;
    let prev = spec_prev(streams, id);
    &&& chunk.basic_header.is_valid()
    &&& chunk.message_header.is_valid()
    &&& chunk.basic_header.chunk_header_format == chunk.message_header.spec_format()
    &&& chunk.extended_timestamp is Some == spec_expects_extended(prev, chunk.message_header)
    &&& spec_begin(prev, id, chunk.message_header, spec_extended_value(chunk.extended_timestamp))
        matches Ok(begun) && chunk.data.len() == spec_payload_len(begun, chunk_size)
}

/// A chunk of any of the four formats that is written and read again is
/// the chunk that was written: it is read to its last byte, on its chunk
/// stream, with its headers resolved as they were meant and its payload
/// taken as it was given.
pub proof fn lemma_chunk_roundtrip(
    chunk: RTMPChunkView,
    chunk_size: u32,
    streams: Map<u32, ChunkStreamStateView>,
    tail: Seq<u8>,
)
    requires
        spec_chunk_fits(chunk, chunk_size, streams),
    ensures
        ({
            let id = chunk.basic_header.chunk_stream_id;
            let begun = spec_begin(
                spec_prev(streams, id),
                id,
                chunk.message_header,
                spec_extended_value(chunk.extended_timestamp),
            )->Ok_0;
            spec_read_chunk(chunk.spec_bytes() + tail, chunk_size, streams) == (ChunkStep::Read {
                consumed: chunk.spec_bytes().len(),
                chunk_stream_id: id,
                state: spec_accept(begun, id, chunk.data).0,
                message: spec_accept(begun, id, chunk.data).1,
            })
        }),
{
    let c1 = chunk.basic_header.spec_bytes();
    let c2 = chunk.message_header.spec_bytes();
    let c3 = match chunk.extended_timestamp {
        Some(ExtendedTimestamp(t)) => u32_be_bytes(t),
        None => Seq::empty(),
    };
    let c4 = chunk.data;
    chunk.basic_header.lemma_roundtrip(Seq::empty());
    assert(c1 + Seq::<u8>::empty() =~= c1);
    chunk.message_header.lemma_roundtrip(Seq::empty());
    assert(c2 + Seq::<u8>::empty() =~= c2);
    match chunk.extended_timestamp {
        Some(ExtendedTimestamp(t)) => {
            lemma_u32_be_roundtrip(t);
        },
        None => {},
    }
    let id = chunk.basic_header.chunk_stream_id;
    let prev = spec_prev(streams, id);
    assert(spec_extended_of(spec_expects_extended(prev, chunk.message_header), c3)
        == spec_extended_value(chunk.extended_timestamp));
    lemma_read_chunk_parts(c1, c2, c3, c4, chunk_size, streams);
    assert(chunk.spec_bytes() =~= c1 + c2 + c3 + c4);
    lemma_read_chunk_prefix(chunk.spec_bytes(), tail, chunk_size, streams);
}

/// A format-3 chunk that carries a message on changes nothing of what the
/// header that began the message has set: the type, the message stream id,
/// the length and the timestamps stay, and the message that it completes
/// has them.
pub proof fn lemma_continuation_inherits(
    prev: ChunkStreamStateView,
    chunk_stream_id: u32,
    extended: Option<u32>,
    data: Seq<u8>,
)
    requires
        prev.in_progress(),
    ensures
        spec_begin(Some(prev), chunk_stream_id, ChunkMessageHeader::Type3, extended) == Ok::<
            ChunkStreamStateView,
            crate::errors::Error,
        >(prev),
        ({
            let (state, message) = spec_accept(prev, chunk_stream_id, data);
            &&& state.message_type_id == prev.message_type_id
            &&& state.message_stream_id == prev.message_stream_id
            &&& state.message_length == prev.message_length
            &&& state.timestamp == prev.timestamp
            &&& state.timestamp_delta == prev.timestamp_delta
            &&& state.had_extended_timestamp == prev.had_extended_timestamp
            &&& message matches Some(m) ==> {
                &&& m.message_type_id == prev.message_type_id
                &&& m.message_stream_id == prev.message_stream_id
                &&& m.timestamp == prev.timestamp
                &&& m.chunk_stream_id == chunk_stream_id
                &&& m.payload == prev.buffer + data
            }
        }),
{
    reveal(spec_begin);
}

/// The state that a message leaves its chunk stream in once it is read
/// whole.
pub open spec fn spec_state_after(message: RTMPMessageView) -> ChunkStreamStateView {
    ChunkStreamStateView {
        message_type_id: message.message_type_id,
        message_stream_id: message.message_stream_id,
        message_length: message.payload.len() as u32,
        timestamp: message.timestamp,
        timestamp_delta: message.timestamp,
        had_extended_timestamp: message.timestamp >= EXTENDED_TIMESTAMP_MARKER,
        bytes_remaining: 0,
        buffer: Seq::empty(),
    }
}

/// The state that a message leaves its chunk stream in while `rest` of its
/// payload has not arrived.
pub open spec fn spec_state_during(message: RTMPMessageView, rest: Seq<u8>) -> ChunkStreamStateView {
    ChunkStreamStateView {
        bytes_remaining: rest.len() as u32,
        buffer: message.payload.take(message.payload.len() - rest.len()),
        ..spec_state_after(message)
    }
}

/// The chunks that carry a message on are read as the rest of the message.
proof fn lemma_continuation_roundtrip(
    message: RTMPMessageView,
    rest: Seq<u8>,
    chunk_size: u32,
    streams: Map<u32, ChunkStreamStateView>,
    tail: Seq<u8>,
)
    requires
        chunk_size >= 1,
        1 <= rest.len() <= message.payload.len() <= 0xFF_FFFF,
        2 <= message.chunk_stream_id <= 65599,
        rest == message.payload.skip(message.payload.len() - rest.len()),
        spec_prev(streams, message.chunk_stream_id) == Some(spec_state_during(message, rest)),
    ensures
        spec_read_message(
            spec_continuation_bytes(
                message.chunk_stream_id,
                message.timestamp,
                rest,
                chunk_size,
            ) + tail,
            chunk_size,
            streams,
        ) == (MessageStep::Read {
            consumed: spec_continuation_bytes(
                message.chunk_stream_id,
                message.timestamp,
                rest,
                chunk_size,
            ).len(),
            message,
            streams: streams.insert(message.chunk_stream_id, spec_state_after(message)),
        }),
    decreases rest.len(),
{
    let id = message.chunk_stream_id;
    let n = spec_min(rest.len() as int, chunk_size as int);
    let chunk = spec_next_chunk(id, message.timestamp, rest, chunk_size);
    let more = spec_continuation_bytes(id, message.timestamp, rest.skip(n), chunk_size);
    let all = spec_continuation_bytes(id, message.timestamp, rest, chunk_size);
    let during = spec_state_during(message, rest);
    assert(all == chunk.spec_bytes() + more);
    assert(all + tail =~= chunk.spec_bytes() + (more + tail));
    lemma_continuation_inherits(during, id, spec_extended_value(chunk.extended_timestamp), chunk.data);
    lemma_chunk_roundtrip(chunk, chunk_size, streams, more + tail);
    let (state, done) = spec_accept(during, id, chunk.data);
    let arrived = message.payload.len() - rest.len();
    assert(during.buffer + chunk.data =~= message.payload.take(arrived + n));
    if rest.len() <= chunk_size {
        assert(message.payload.take(arrived + n) =~= message.payload);
        assert(rest.skip(n) =~= Seq::<u8>::empty());
        assert(all =~= chunk.spec_bytes());
    } else {
        let next = streams.insert(id, state);
        assert(rest.skip(n) =~= message.payload.skip(message.payload.len() - (rest.len() - n)));
        assert(state == spec_state_during(message, rest.skip(n)));
        assert((all + tail).skip(chunk.spec_bytes().len() as int) =~= more + tail);
        lemma_continuation_roundtrip(message, rest.skip(n), chunk_size, next, tail);
        assert(next.insert(id, spec_state_after(message)) =~= streams.insert(
            id,
            spec_state_after(message),
        ));
        lemma_chunk_length(all + tail, chunk_size, streams);
    }
}

/// A message that is split into chunks of any size and put together again
/// is the message that was split: its payload, byte for byte, and its
/// timestamp, type, message stream and chunk stream. Chunks of other chunk
/// streams that are under way stay as they are; bytes that follow the
/// message are not touched.
///
/// The chunk stream of the message must be between two messages, and the
/// message must not be empty: an empty message is no chunk at all.
pub proof fn lemma_fragment_roundtrip(
    message: RTMPMessageView,
    chunk_size: u32,
    streams: Map<u32, ChunkStreamStateView>,
    tail: Seq<u8>,
)
    requires
        chunk_size >= 1,
        1 <= message.payload.len() <= 0xFF_FFFF,
        2 <= message.chunk_stream_id <= 65599,
        spec_prev(streams, message.chunk_stream_id) matches Some(p) ==> !p.in_progress(),
    ensures
        spec_read_message(spec_message_bytes(message, chunk_size) + tail, chunk_size, streams) == (
        MessageStep::Read {
            consumed: spec_message_bytes(message, chunk_size).len(),
            message,
            streams: streams.insert(message.chunk_stream_id, spec_state_after(message)),
        }),
{
    let id = message.chunk_stream_id;
    let n = spec_min(message.payload.len() as int, chunk_size as int);
    let chunk = spec_first_chunk(message, chunk_size);
    let rest = message.payload.skip(n);
    let more = spec_continuation_bytes(id, message.timestamp, rest, chunk_size);
    let all = spec_message_bytes(message, chunk_size);
    assert(all == chunk.spec_bytes() + more);
    assert(all + tail =~= chunk.spec_bytes() + (more + tail));
    let prev = spec_prev(streams, id);
    let begun = spec_begin(
        prev,
        id,
        chunk.message_header,
        spec_extended_value(chunk.extended_timestamp),
    );
    assert(begun == Ok::<ChunkStreamStateView, crate::errors::Error>(
        spec_state_during(message, message.payload),
    )) by {
        reveal(spec_begin);
        assert(message.payload.take(0) =~= Seq::<u8>::empty());
    }
    lemma_chunk_roundtrip(chunk, chunk_size, streams, more + tail);
    let during = spec_state_during(message, message.payload);
    let (state, done) = spec_accept(during, id, chunk.data);
    assert(during.buffer + chunk.data =~= message.payload.take(n));
    if message.payload.len() <= chunk_size {
        assert(message.payload.take(n) =~= message.payload);
        assert(rest =~= Seq::<u8>::empty());
        assert(all =~= chunk.spec_bytes());
    } else {
        let next = streams.insert(id, state);
        assert(rest =~= message.payload.skip(message.payload.len() - rest.len()));
        assert(state == spec_state_during(message, rest));
        assert((all + tail).skip(chunk.spec_bytes().len() as int) =~= more + tail);
        lemma_continuation_roundtrip(message, rest, chunk_size, next, tail);
        assert(next.insert(id, spec_state_after(message)) =~= streams.insert(
            id,
            spec_state_after(message),
        ));
        lemma_chunk_length(all + tail, chunk_size, streams);
    }
}

} // verus!
