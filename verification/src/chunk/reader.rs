//! Reassembly: from the chunks of interleaved chunk streams to messages.

use crate::amf::AmfValue;
use crate::chunk::packets::{
    ChunkBasicHeader, ChunkMessageHeader, ExtendedTimestamp, MessageTypeId,
};
use crate::chunk::state::{ChunkStreamState, ChunkStreamStateView};
use crate::chunk::writer::spec_min;
use crate::context::NetConnectionContext;
use crate::errors::Error;
use crate::net_connection::packets::{RTMPMessage, RTMPMessageView};
use crate::net_connection::transaction_manager::TransactionResult;
use crate::transport::Transport;
use crate::utils::bytes::{be_u24, be_u32, be_u8, le_u32, spec_u32_be};
use vstd::prelude::*;

verus! {

broadcast use vstd::std_specs::hash::group_hash_axioms;

/// What is remembered of a chunk stream, if a chunk has arrived on it.
pub open spec fn spec_prev(streams: Map<u32, ChunkStreamStateView>, chunk_stream_id: u32) -> Option<
    ChunkStreamStateView,
> {
    if streams.contains_key(chunk_stream_id) {
        Some(streams[chunk_stream_id])
    } else {
        None
    }
}

/// Whether an extended timestamp follows a message header: after a header
/// with a timestamp field, where the field holds the marker; after a
/// format-3 header, where the header that began the current or last message
/// of the chunk stream had one.
pub open spec fn spec_expects_extended(
    prev: Option<ChunkStreamStateView>,
    header: ChunkMessageHeader,
) -> bool {
    match header {
        ChunkMessageHeader::Type3 => prev matches Some(p) && p.had_extended_timestamp,
        _ => header.spec_is_extended_timestamp(),
    }
}

/// The sum of a timestamp and a delta, which wraps round at 2^32.
pub open spec fn spec_advance(timestamp: u32, delta: u32) -> u32 {
    ((timestamp + delta) % 0x1_0000_0000) as u32
}

/// The state of a chunk stream after a chunk's headers and before its
/// payload, or the reason the headers cannot stand where they do.
///
/// While a message is under way, only a format-3 header may follow, and it
/// changes nothing. Between messages, a format-0 header sets everything,
/// and its timestamp is also the delta that a later header without one
/// applies; a format-1 header keeps the message stream id, a format-2
/// header the length and the type as well, and both add their delta to the
/// timestamp; a format-3 header keeps everything and adds the last delta
/// again. On a chunk stream that no chunk has arrived on, only a format-0
/// header may stand.
#[verifier::opaque]
pub open spec fn spec_begin(
    prev: Option<ChunkStreamStateView>,
    chunk_stream_id: u32,
    header: ChunkMessageHeader,
    extended: Option<u32>,
) -> Result<ChunkStreamStateView, Error> {
    let had_extended_timestamp = header.spec_is_extended_timestamp();
    match header {
        ChunkMessageHeader::Type0 {
            absolute_timestamp,
            message_length,
            message_type_id,
            message_stream_id,
        } => {
            if prev matches Some(p) && p.in_progress() {
                Err(Error::MessageInProgress { chunk_stream_id, format: 0 })
            } else {
                let timestamp = match extended {
                    Some(t) => t,
                    None => absolute_timestamp,
                };
                Ok(
                    ChunkStreamStateView {
                        message_type_id,
                        message_stream_id,
                        message_length,
                        timestamp,
                        timestamp_delta: timestamp,
                        had_extended_timestamp,
                        bytes_remaining: message_length,
                        buffer: Seq::empty(),
                    },
                )
            }
        },
        _ => match prev {
            None => Err(Error::NoPriorChunk { chunk_stream_id, format: header.spec_format() }),
            Some(p) => if p.in_progress() {
                if header is Type3 {
                    Ok(p)
                } else {
                    Err(
                        Error::MessageInProgress {
                            chunk_stream_id,
                            format: header.spec_format(),
                        },
                    )
                }
            } else {
                match header {
                    ChunkMessageHeader::Type1 {
                        timestamp_delta,
                        message_length,
                        message_type_id,
                    } => {
                        let delta = match extended {
                            Some(t) => t,
                            None => timestamp_delta,
                        };
                        Ok(
                            ChunkStreamStateView {
                                message_type_id,
                                message_stream_id: p.message_stream_id,
                                message_length,
                                timestamp: spec_advance(p.timestamp, delta),
                                timestamp_delta: delta,
                                had_extended_timestamp,
                                bytes_remaining: message_length,
                                buffer: Seq::empty(),
                            },
                        )
                    },
                    ChunkMessageHeader::Type2 { timestamp_delta } => {
                        let delta = match extended {
                            Some(t) => t,
                            None => timestamp_delta,
                        };
                        Ok(
                            ChunkStreamStateView {
                                timestamp: spec_advance(p.timestamp, delta),
                                timestamp_delta: delta,
                                had_extended_timestamp,
                                bytes_remaining: p.message_length,
                                buffer: Seq::empty(),
                                ..p
                            },
                        )
                    },
                    _ => Ok(
                        ChunkStreamStateView {
                            timestamp: spec_advance(p.timestamp, p.timestamp_delta),
                            bytes_remaining: p.message_length,
                            buffer: Seq::empty(),
                            ..p
                        },
                    ),
                }
            },
        },
    }
}

/// How many bytes of payload a chunk carries: what is left of the message,
/// but no more than the chunk size.
pub open spec fn spec_payload_len(state: ChunkStreamStateView, chunk_size: u32) -> nat {
    spec_min(state.bytes_remaining as int, chunk_size as int) as nat
}

/// The state of a chunk stream after a chunk's payload, and the message
/// that the payload completes, if it completes one. A complete message
/// leaves the buffer empty and the rest of the state as it is.
pub open spec fn spec_accept(
    state: ChunkStreamStateView,
    chunk_stream_id: u32,
    data: Seq<u8>,
) -> (ChunkStreamStateView, Option<RTMPMessageView>) {
    if state.bytes_remaining == data.len() {
        (
            ChunkStreamStateView { bytes_remaining: 0, buffer: Seq::empty(), ..state },
            Some(
                RTMPMessageView {
                    timestamp: state.timestamp,
                    message_type_id: state.message_type_id,
                    message_stream_id: state.message_stream_id,
                    chunk_stream_id,
                    payload: state.buffer + data,
                },
            ),
        )
    } else {
        (
            ChunkStreamStateView {
                bytes_remaining: (state.bytes_remaining - data.len()) as u32,
                buffer: state.buffer + data,
                ..state
            },
            None,
        )
    }
}

/// What reading one chunk from the front of a byte sequence gives.
pub enum ChunkStep {
    /// The bytes end before the chunk does.
    Short,
    /// The chunk breaks the protocol.
    Invalid(Error),
    /// The chunk is `consumed` bytes long, leaves its chunk stream in
    /// `state`, and completes `message` if it completes one.
    Read {
        consumed: nat,
        chunk_stream_id: u32,
        state: ChunkStreamStateView,
        message: Option<RTMPMessageView>,
    },
}

/// A result of reading a chunk, with its count of bytes moved on by the
/// length of what was read before.
pub open spec fn spec_shift_chunk(step: ChunkStep, by: nat) -> ChunkStep {
    match step {
        ChunkStep::Read { consumed, chunk_stream_id, state, message } => ChunkStep::Read {
            consumed: consumed + by,
            chunk_stream_id,
            state,
            message,
        },
        other => other,
    }
}

/// Reads the payload of a chunk from the front of `s`, for a chunk stream
/// that the chunk's headers have left in the state `begun`.
#[verifier::opaque]
pub open spec fn spec_read_payload(
    s: Seq<u8>,
    chunk_stream_id: u32,
    begun: ChunkStreamStateView,
    chunk_size: u32,
) -> ChunkStep {
    let n = spec_payload_len(begun, chunk_size);
    if s.len() < n {
        ChunkStep::Short
    } else {
        let (state, message) = spec_accept(begun, chunk_stream_id, s.take(n as int));
        ChunkStep::Read { consumed: n, chunk_stream_id, state, message }
    }
}

/// Reads what follows the message header of a chunk from the front of `s`:
/// the extended timestamp where one is due, and the payload.
#[verifier::opaque]
pub open spec fn spec_read_after_header(
    s: Seq<u8>,
    chunk_stream_id: u32,
    header: ChunkMessageHeader,
    chunk_size: u32,
    streams: Map<u32, ChunkStreamStateView>,
) -> ChunkStep {
    let prev = spec_prev(streams, chunk_stream_id);
    let expects = spec_expects_extended(prev, header);
    let skip: nat = if expects {
        4
    } else {
        0
    };
    if s.len() < skip {
        ChunkStep::Short
    } else {
        let extended = if expects {
            Some(spec_u32_be(s) as u32)
        } else {
            None
        };
        match spec_begin(prev, chunk_stream_id, header, extended) {
            Err(e) => ChunkStep::Invalid(e),
            Ok(begun) => spec_shift_chunk(
                spec_read_payload(s.skip(skip as int), chunk_stream_id, begun, chunk_size),
                skip,
            ),
        }
    }
}

/// Reads what follows the basic header of a chunk from the front of `s`:
/// the message header of the format that the basic header names, and what
/// follows it.
#[verifier::opaque]
pub open spec fn spec_read_after_basic(
    s: Seq<u8>,
    basic: ChunkBasicHeader,
    chunk_size: u32,
    streams: Map<u32, ChunkStreamStateView>,
) -> ChunkStep {
    let length = ChunkMessageHeader::spec_len_of(basic.chunk_header_format);
    if s.len() < length {
        ChunkStep::Short
    } else {
        match ChunkMessageHeader::spec_parse(basic.chunk_header_format, s) {
            Err(byte) => ChunkStep::Invalid(Error::InvalidMessageTypeId(byte)),
            Ok(header) => spec_shift_chunk(
                spec_read_after_header(
                    s.skip(length as int),
                    basic.chunk_stream_id,
                    header,
                    chunk_size,
                    streams,
                ),
                length,
            ),
        }
    }
}

/// Reads one chunk from the front of `s`: the basic header, the message
/// header of the format that the basic header names, the extended
/// timestamp where one is due, and the payload.
#[verifier::opaque]
pub open spec fn spec_read_chunk(
    s: Seq<u8>,
    chunk_size: u32,
    streams: Map<u32, ChunkStreamStateView>,
) -> ChunkStep {
    if s.len() < 1 || s.len() < ChunkBasicHeader::spec_wire_len(s) {
        ChunkStep::Short
    } else {
        spec_shift_chunk(
            spec_read_after_basic(
                s.skip(ChunkBasicHeader::spec_wire_len(s) as int),
                ChunkBasicHeader::spec_parse(s),
                chunk_size,
                streams,
            ),
            ChunkBasicHeader::spec_wire_len(s),
        )
    }
}

/// What reading chunks from the front of a byte sequence until one of them
/// completes a message gives.
pub enum MessageStep {
    /// The bytes end before a message is complete.
    Short,
    /// A chunk breaks the protocol.
    Invalid(Error),
    /// The first `consumed` bytes are whole chunks, the last of which
    /// completes `message`; they leave the chunk streams as `streams`.
    Read { consumed: nat, message: RTMPMessageView, streams: Map<u32, ChunkStreamStateView> },
}

/// Reads chunks from the front of `s`, one after the other, until one
/// completes a message.
pub open spec fn spec_read_message(
    s: Seq<u8>,
    chunk_size: u32,
    streams: Map<u32, ChunkStreamStateView>,
) -> MessageStep
    decreases s.len(),
{
    match spec_read_chunk(s, chunk_size, streams) {
        ChunkStep::Short => MessageStep::Short,
        ChunkStep::Invalid(e) => MessageStep::Invalid(e),
        ChunkStep::Read { consumed, chunk_stream_id, state, message } => match message {
            Some(message) => MessageStep::Read {
                consumed,
                message,
                streams: streams.insert(chunk_stream_id, state),
            },
            None => if 0 < consumed <= s.len() {
                match spec_read_message(
                    s.skip(consumed as int),
                    chunk_size,
                    streams.insert(chunk_stream_id, state),
                ) {
                    MessageStep::Read { consumed: more, message, streams } => MessageStep::Read {
                        consumed: consumed + more,
                        message,
                        streams,
                    },
                    other => other,
                }
            } else {
                MessageStep::Short
            },
        },
    }
}

/// The chunk streams after the whole chunks that `s` is made of, none of
/// which completes a message; `None` where `s` is not made of such chunks.
pub open spec fn spec_after_chunks(
    s: Seq<u8>,
    chunk_size: u32,
    streams: Map<u32, ChunkStreamStateView>,
) -> Option<Map<u32, ChunkStreamStateView>>
    decreases s.len(),
{
    if s.len() == 0 {
        Some(streams)
    } else {
        match spec_read_chunk(s, chunk_size, streams) {
            ChunkStep::Read { consumed, chunk_stream_id, state, message } => if message is None
                && 0 < consumed <= s.len() {
                spec_after_chunks(
                    s.skip(consumed as int),
                    chunk_size,
                    streams.insert(chunk_stream_id, state),
                )
            } else {
                None
            },
            _ => None,
        }
    }
}

/// A result of reading a message, with its count of bytes moved on by
/// the length of what was read before.
pub open spec fn spec_shift(step: MessageStep, by: nat) -> MessageStep {
    match step {
        MessageStep::Read { consumed, message, streams } => MessageStep::Read {
            consumed: consumed + by,
            message,
            streams,
        },
        other => other,
    }
}

/// A payload ends within the bytes it is read from, and is read the same
/// from any longer sequence.
proof fn lemma_payload_prefix(
    a: Seq<u8>,
    b: Seq<u8>,
    chunk_stream_id: u32,
    begun: ChunkStreamStateView,
    chunk_size: u32,
)
    ensures
        spec_read_payload(a, chunk_stream_id, begun, chunk_size) matches ChunkStep::Read {
            consumed,
            chunk_stream_id: id,
            ..
        } ==> consumed <= a.len() && id == chunk_stream_id,
        !(spec_read_payload(a, chunk_stream_id, begun, chunk_size) is Short) ==> spec_read_payload(
            a + b,
            chunk_stream_id,
            begun,
            chunk_size,
        ) == spec_read_payload(a, chunk_stream_id, begun, chunk_size),
{
    reveal(spec_read_payload);
    let n = spec_payload_len(begun, chunk_size);
    if a.len() >= n {
        assert((a + b).take(n as int) =~= a.take(n as int));
    }
}

/// What follows a message header ends within the bytes it is read from,
/// and is read the same from any longer sequence.
proof fn lemma_after_header_prefix(
    a: Seq<u8>,
    b: Seq<u8>,
    chunk_stream_id: u32,
    header: ChunkMessageHeader,
    chunk_size: u32,
    streams: Map<u32, ChunkStreamStateView>,
)
    ensures
        spec_read_after_header(a, chunk_stream_id, header, chunk_size, streams) matches ChunkStep::Read {
            consumed,
            chunk_stream_id: id,
            ..
        } ==> consumed <= a.len() && id == chunk_stream_id,
        !(spec_read_after_header(a, chunk_stream_id, header, chunk_size, streams) is Short)
            ==> spec_read_after_header(a + b, chunk_stream_id, header, chunk_size, streams)
            == spec_read_after_header(a, chunk_stream_id, header, chunk_size, streams),
{
    reveal(spec_read_after_header);
    let prev = spec_prev(streams, chunk_stream_id);
    let expects = spec_expects_extended(prev, header);
    let skip: nat = if expects {
        4
    } else {
        0
    };
    if a.len() >= skip {
        if expects {
            let s = a + b;
            assert(s[0] == a[0] && s[1] == a[1] && s[2] == a[2] && s[3] == a[3]);
        }
        let extended = if expects {
            Some(spec_u32_be(a) as u32)
        } else {
            None
        };
        match spec_begin(prev, chunk_stream_id, header, extended) {
            Err(_) => {},
            Ok(begun) => {
                assert((a + b).skip(skip as int) =~= a.skip(skip as int) + b);
                lemma_payload_prefix(a.skip(skip as int), b, chunk_stream_id, begun, chunk_size);
            },
        }
    }
}

/// What follows a basic header ends within the bytes it is read from, and
/// is read the same from any longer sequence.
proof fn lemma_after_basic_prefix(
    a: Seq<u8>,
    b: Seq<u8>,
    basic: ChunkBasicHeader,
    chunk_size: u32,
    streams: Map<u32, ChunkStreamStateView>,
)
    ensures
        spec_read_after_basic(a, basic, chunk_size, streams) matches ChunkStep::Read {
            consumed,
            chunk_stream_id: id,
            ..
        } ==> consumed <= a.len() && id == basic.chunk_stream_id,
        !(spec_read_after_basic(a, basic, chunk_size, streams) is Short) ==> spec_read_after_basic(
            a + b,
            basic,
            chunk_size,
            streams,
        ) == spec_read_after_basic(a, basic, chunk_size, streams),
{
    reveal(spec_read_after_basic);
    let format = basic.chunk_header_format;
    let length = ChunkMessageHeader::spec_len_of(format);
    if a.len() >= length {
        ChunkMessageHeader::lemma_parse_prefix(format, a, b);
        match ChunkMessageHeader::spec_parse(format, a) {
            Err(_) => {},
            Ok(header) => {
                assert((a + b).skip(length as int) =~= a.skip(length as int) + b);
                lemma_after_header_prefix(
                    a.skip(length as int),
                    b,
                    basic.chunk_stream_id,
                    header,
                    chunk_size,
                    streams,
                );
            },
        }
    }
}

/// A chunk is at least one byte long, ends within the bytes it is read
/// from, and belongs to a chunk stream whose id the wire can carry.
pub proof fn lemma_chunk_length(s: Seq<u8>, chunk_size: u32, streams: Map<u32, ChunkStreamStateView>)
    ensures
        spec_read_chunk(s, chunk_size, streams) matches ChunkStep::Read {
            consumed,
            chunk_stream_id,
            ..
        } ==> 0 < consumed <= s.len() && 2 <= chunk_stream_id <= 65599,
{
    reveal(spec_read_chunk);
    if s.len() >= 1 && s.len() >= ChunkBasicHeader::spec_wire_len(s) {
        ChunkBasicHeader::lemma_parse_is_valid(s);
        lemma_after_basic_prefix(
            s.skip(ChunkBasicHeader::spec_wire_len(s) as int),
            Seq::empty(),
            ChunkBasicHeader::spec_parse(s),
            chunk_size,
            streams,
        );
    }
}

/// A chunk that is read whole from a byte sequence is read the same from
/// any longer one: what follows a chunk has no part in it.
pub proof fn lemma_read_chunk_prefix(
    a: Seq<u8>,
    b: Seq<u8>,
    chunk_size: u32,
    streams: Map<u32, ChunkStreamStateView>,
)
    requires
        !(spec_read_chunk(a, chunk_size, streams) is Short),
    ensures
        spec_read_chunk(a + b, chunk_size, streams) == spec_read_chunk(a, chunk_size, streams),
{
    reveal(spec_read_chunk);
    ChunkBasicHeader::lemma_parse_prefix(a, b);
    let at_header = ChunkBasicHeader::spec_wire_len(a) as int;
    assert((a + b).skip(at_header) =~= a.skip(at_header) + b);
    lemma_after_basic_prefix(
        a.skip(at_header),
        b,
        ChunkBasicHeader::spec_parse(a),
        chunk_size,
        streams,
    );
}

/// Bytes that are whole chunks of unfinished messages, followed by more
/// bytes, read as the bytes that follow read from the state the chunks
/// leave, with the length of the chunks added to the count.
pub proof fn lemma_read_message_append(
    p: Seq<u8>,
    c: Seq<u8>,
    chunk_size: u32,
    streams: Map<u32, ChunkStreamStateView>,
)
    requires
        spec_after_chunks(p, chunk_size, streams) is Some,
    ensures
        spec_read_message(p + c, chunk_size, streams) == spec_shift(
            spec_read_message(c, chunk_size, spec_after_chunks(p, chunk_size, streams)->0),
            p.len(),
        ),
    decreases p.len(),
{
    if p.len() == 0 {
        assert(p + c =~= c);
        let step = spec_read_message(c, chunk_size, streams);
        assert(spec_shift(step, 0) == step);
    } else {
        let first = spec_read_chunk(p, chunk_size, streams);
        lemma_chunk_length(p, chunk_size, streams);
        lemma_read_chunk_prefix(p, c, chunk_size, streams);
        let consumed = first->consumed;
        let next = streams.insert(first->chunk_stream_id, first->state);
        assert((p + c).skip(consumed as int) =~= p.skip(consumed as int) + c);
        lemma_read_message_append(p.skip(consumed as int), c, chunk_size, next);
    }
}

/// Whole chunks of unfinished messages, followed by one more such chunk,
/// are whole chunks of unfinished messages.
pub proof fn lemma_after_chunks_append(
    p: Seq<u8>,
    c: Seq<u8>,
    chunk_size: u32,
    streams: Map<u32, ChunkStreamStateView>,
)
    requires
        spec_after_chunks(p, chunk_size, streams) is Some,
        spec_read_chunk(c, chunk_size, spec_after_chunks(p, chunk_size, streams)->0) matches ChunkStep::Read {
            consumed,
            message,
            ..
        } && consumed == c.len() && message is None,
    ensures
        spec_after_chunks(p + c, chunk_size, streams) == ({
            let last = spec_read_chunk(c, chunk_size, spec_after_chunks(p, chunk_size, streams)->0);
            Some(
                spec_after_chunks(p, chunk_size, streams)->0.insert(
                    last->chunk_stream_id,
                    last->state,
                ),
            )
        }),
    decreases p.len(),
{
    let after = spec_after_chunks(p, chunk_size, streams)->0;
    lemma_chunk_length(c, chunk_size, after);
    if p.len() == 0 {
        assert(p + c =~= c);
        assert(after == streams);
        let last = spec_read_chunk(c, chunk_size, streams);
        let next = streams.insert(last->chunk_stream_id, last->state);
        assert(c.skip(c.len() as int) =~= Seq::<u8>::empty());
        assert(spec_after_chunks(c.skip(c.len() as int), chunk_size, next) == Some(next));
        assert(spec_after_chunks(c, chunk_size, streams) == Some(next));
    } else {
        let first = spec_read_chunk(p, chunk_size, streams);
        lemma_chunk_length(p, chunk_size, streams);
        lemma_read_chunk_prefix(p, c, chunk_size, streams);
        let consumed = first->consumed;
        let next = streams.insert(first->chunk_stream_id, first->state);
        assert((p + c).skip(consumed as int) =~= p.skip(consumed as int) + c);
        assert(spec_after_chunks(p.skip(consumed as int), chunk_size, next) == Some(after));
        lemma_after_chunks_append(p.skip(consumed as int), c, chunk_size, next);
        assert(spec_after_chunks(p + c, chunk_size, streams) == spec_after_chunks(
            (p + c).skip(consumed as int),
            chunk_size,
            next,
        ));
    }
}

/// A basic header followed by a message header that holds no message type
/// reads as a chunk that breaks the protocol.
pub proof fn lemma_read_chunk_bad_header(
    c1: Seq<u8>,
    c2: Seq<u8>,
    chunk_size: u32,
    streams: Map<u32, ChunkStreamStateView>,
)
    requires
        c1.len() >= 1,
        c1.len() == ChunkBasicHeader::spec_wire_len(c1),
        c2.len() == ChunkMessageHeader::spec_len_of(
            ChunkBasicHeader::spec_parse(c1).chunk_header_format,
        ),
        ChunkMessageHeader::spec_parse(ChunkBasicHeader::spec_parse(c1).chunk_header_format, c2)
            is Err,
    ensures
        spec_read_chunk(c1 + c2, chunk_size, streams) == ChunkStep::Invalid(
            Error::InvalidMessageTypeId(
                ChunkMessageHeader::spec_parse(
                    ChunkBasicHeader::spec_parse(c1).chunk_header_format,
                    c2,
                )->Err_0,
            ),
        ),
{
    reveal(spec_read_chunk);
    reveal(spec_read_after_basic);
    let read = c1 + c2;
    ChunkBasicHeader::lemma_parse_prefix(c1, c2);
    assert(read.skip(c1.len() as int) =~= c2);
}

/// The extended timestamp that `c3` holds, where a chunk has one.
pub open spec fn spec_extended_of(expects: bool, c3: Seq<u8>) -> Option<u32> {
    if expects {
        Some(spec_u32_be(c3) as u32)
    } else {
        None
    }
}

/// What follows a message header, in its parts.
proof fn lemma_after_header_parts(
    c3: Seq<u8>,
    c4: Seq<u8>,
    chunk_stream_id: u32,
    header: ChunkMessageHeader,
    chunk_size: u32,
    streams: Map<u32, ChunkStreamStateView>,
)
    requires
        c3.len() == if spec_expects_extended(spec_prev(streams, chunk_stream_id), header) {
            4nat
        } else {
            0nat
        },
    ensures
        ({
            let prev = spec_prev(streams, chunk_stream_id);
            let extended = spec_extended_of(spec_expects_extended(prev, header), c3);
            match spec_begin(prev, chunk_stream_id, header, extended) {
                Err(e) => spec_read_after_header(c3, chunk_stream_id, header, chunk_size, streams)
                    == ChunkStep::Invalid(e),
                Ok(begun) => c4.len() == spec_payload_len(begun, chunk_size)
                    ==> spec_read_after_header(c3
                        + c4, chunk_stream_id, header, chunk_size, streams)
                    == (ChunkStep::Read {
                    consumed: c3.len() + c4.len(),
                    chunk_stream_id,
                    state: spec_accept(begun, chunk_stream_id, c4).0,
                    message: spec_accept(begun, chunk_stream_id, c4).1,
                }),
            }
        }),
{
    reveal(spec_read_after_header);
    reveal(spec_read_payload);
    let prev = spec_prev(streams, chunk_stream_id);
    let expects = spec_expects_extended(prev, header);
    if expects {
        let x = c3 + c4;
        assert(x[0] == c3[0] && x[1] == c3[1] && x[2] == c3[2] && x[3] == c3[3]);
    }
    assert((c3 + c4).skip(c3.len() as int) =~= c4);
    assert(c4.take(c4.len() as int) =~= c4);
}

/// What follows a basic header, in its parts.
proof fn lemma_after_basic_parts(
    c2: Seq<u8>,
    c3: Seq<u8>,
    c4: Seq<u8>,
    basic: ChunkBasicHeader,
    chunk_size: u32,
    streams: Map<u32, ChunkStreamStateView>,
)
    requires
        c2.len() == ChunkMessageHeader::spec_len_of(basic.chunk_header_format),
        ChunkMessageHeader::spec_parse(basic.chunk_header_format, c2) is Ok,
        c3.len() == if spec_expects_extended(
            spec_prev(streams, basic.chunk_stream_id),
            ChunkMessageHeader::spec_parse(basic.chunk_header_format, c2)->Ok_0,
        ) {
            4nat
        } else {
            0nat
        },
    ensures
        ({
            let header = ChunkMessageHeader::spec_parse(basic.chunk_header_format, c2)->Ok_0;
            let prev = spec_prev(streams, basic.chunk_stream_id);
            let extended = spec_extended_of(spec_expects_extended(prev, header), c3);
            match spec_begin(prev, basic.chunk_stream_id, header, extended) {
                Err(e) => spec_read_after_basic(c2 + c3, basic, chunk_size, streams)
                    == ChunkStep::Invalid(e),
                Ok(begun) => c4.len() == spec_payload_len(begun, chunk_size)
                    ==> spec_read_after_basic(c2 + c3 + c4, basic, chunk_size, streams) == (
                ChunkStep::Read {
                    consumed: c2.len() + c3.len() + c4.len(),
                    chunk_stream_id: basic.chunk_stream_id,
                    state: spec_accept(begun, basic.chunk_stream_id, c4).0,
                    message: spec_accept(begun, basic.chunk_stream_id, c4).1,
                }),
            }
        }),
{
    reveal(spec_read_after_basic);
    let format = basic.chunk_header_format;
    let header = ChunkMessageHeader::spec_parse(format, c2)->Ok_0;
    ChunkMessageHeader::lemma_parse_prefix(format, c2, c3);
    assert(c2 + c3 + c4 =~= c2 + (c3 + c4));
    ChunkMessageHeader::lemma_parse_prefix(format, c2, c3 + c4);
    assert((c2 + c3).skip(c2.len() as int) =~= c3);
    assert((c2 + (c3 + c4)).skip(c2.len() as int) =~= c3 + c4);
    lemma_after_header_parts(c3, c4, basic.chunk_stream_id, header, chunk_size, streams);
}

/// What the parts of a chunk say about the chunk: the headers, the
/// extended timestamp where one is due, and the payload, one behind the
/// other, read as the chunk that they are the parts of.
pub proof fn lemma_read_chunk_parts(
    c1: Seq<u8>,
    c2: Seq<u8>,
    c3: Seq<u8>,
    c4: Seq<u8>,
    chunk_size: u32,
    streams: Map<u32, ChunkStreamStateView>,
)
    requires
        c1.len() >= 1,
        c1.len() == ChunkBasicHeader::spec_wire_len(c1),
        c2.len() == ChunkMessageHeader::spec_len_of(
            ChunkBasicHeader::spec_parse(c1).chunk_header_format,
        ),
        ChunkMessageHeader::spec_parse(ChunkBasicHeader::spec_parse(c1).chunk_header_format, c2)
            is Ok,
        c3.len() == if spec_expects_extended(
            spec_prev(streams, ChunkBasicHeader::spec_parse(c1).chunk_stream_id),
            ChunkMessageHeader::spec_parse(
                ChunkBasicHeader::spec_parse(c1).chunk_header_format,
                c2,
            )->Ok_0,
        ) {
            4nat
        } else {
            0nat
        },
    ensures
        ({
            let basic = ChunkBasicHeader::spec_parse(c1);
            let header = ChunkMessageHeader::spec_parse(basic.chunk_header_format, c2)->Ok_0;
            let prev = spec_prev(streams, basic.chunk_stream_id);
            let extended = spec_extended_of(spec_expects_extended(prev, header), c3);
            match spec_begin(prev, basic.chunk_stream_id, header, extended) {
                Err(e) => spec_read_chunk(c1 + c2 + c3, chunk_size, streams) == ChunkStep::Invalid(
                    e,
                ),
                Ok(begun) => c4.len() == spec_payload_len(begun, chunk_size) ==> spec_read_chunk(
                    c1 + c2 + c3 + c4,
                    chunk_size,
                    streams,
                ) == (ChunkStep::Read {
                    consumed: (c1 + c2 + c3 + c4).len(),
                    chunk_stream_id: basic.chunk_stream_id,
                    state: spec_accept(begun, basic.chunk_stream_id, c4).0,
                    message: spec_accept(begun, basic.chunk_stream_id, c4).1,
                }),
            }
        }),
{
    reveal(spec_read_chunk);
    let basic = ChunkBasicHeader::spec_parse(c1);
    let short = c1 + c2 + c3;
    let full = c1 + c2 + c3 + c4;
    assert(short =~= c1 + (c2 + c3));
    assert(full =~= c1 + (c2 + c3 + c4));
    ChunkBasicHeader::lemma_parse_prefix(c1, c2 + c3);
    ChunkBasicHeader::lemma_parse_prefix(c1, c2 + c3 + c4);
    assert(short.skip(c1.len() as int) =~= c2 + c3);
    assert(full.skip(c1.len() as int) =~= c2 + c3 + c4);
    lemma_after_basic_parts(c2, c3, c4, basic, chunk_size, streams);
}

/// What a chunk stream counts for in the measure of the work that is left:
/// the bytes that its message lacks, or 2^24 between messages.
pub open spec fn spec_weight(streams: Map<u32, ChunkStreamStateView>, id: int) -> nat {
    if 0 <= id <= u32::MAX && streams.contains_key(id as u32) && streams[id as u32].in_progress() {
        streams[id as u32].bytes_remaining as nat
    } else {
        0x100_0000
    }
}

/// The measure of the work that is left before some message must be
/// complete: the weights of the chunk streams from `from` up.
pub open spec fn spec_potential(streams: Map<u32, ChunkStreamStateView>, from: int) -> nat
    decreases 65600 - from,
{
    if from >= 65600 {
        0
    } else {
        spec_weight(streams, from) + spec_potential(streams, from + 1)
    }
}

/// A change to one chunk stream changes the measure by what it changes
/// that chunk stream's weight.
pub proof fn lemma_potential_insert(
    streams: Map<u32, ChunkStreamStateView>,
    id: u32,
    state: ChunkStreamStateView,
    from: int,
)
    requires
        0 <= from,
        id <= 65599,
    ensures
        spec_potential(streams.insert(id, state), from) + (if from <= id {
            spec_weight(streams, id as int)
        } else {
            0
        }) == spec_potential(streams, from) + (if from <= id {
            spec_weight(streams.insert(id, state), id as int)
        } else {
            0
        }),
    decreases 65600 - from,
{
    if from >= 65600 {
    } else {
        lemma_potential_insert(streams, id, state, from + 1);
    }
}

/// What the state that a chunk leaves counts for in the measure.
pub open spec fn spec_state_weight(state: ChunkStreamStateView) -> nat {
    if state.in_progress() {
        state.bytes_remaining as nat
    } else {
        0x100_0000
    }
}

/// What follows a message header and completes no message leaves its chunk
/// stream in a state that holds together and counts for less than before.
proof fn lemma_after_header_progress(
    s: Seq<u8>,
    chunk_stream_id: u32,
    header: ChunkMessageHeader,
    chunk_size: u32,
    streams: Map<u32, ChunkStreamStateView>,
)
    requires
        chunk_size >= 1,
        header.is_valid(),
        streams.contains_key(chunk_stream_id) ==> streams[chunk_stream_id].wf(),
        spec_read_after_header(s, chunk_stream_id, header, chunk_size, streams) matches ChunkStep::Read {
            message,
            ..
        } && message is None,
    ensures
        spec_state_weight(
            spec_read_after_header(s, chunk_stream_id, header, chunk_size, streams)->state,
        ) < spec_weight(streams, chunk_stream_id as int),
{
    reveal(spec_read_after_header);
    reveal(spec_read_payload);
    reveal(spec_begin);
}

/// A chunk that completes no message brings some message nearer: its chunk
/// stream lacks fewer bytes than before, or a message has begun on it.
pub proof fn lemma_chunk_progress(
    s: Seq<u8>,
    chunk_size: u32,
    streams: Map<u32, ChunkStreamStateView>,
)
    requires
        chunk_size >= 1,
        forall|id: u32| #[trigger] streams.contains_key(id) ==> streams[id].wf(),
        spec_read_chunk(s, chunk_size, streams) matches ChunkStep::Read { message, .. }
            && message is None,
    ensures
        ({
            let step = spec_read_chunk(s, chunk_size, streams);
            &&& 2 <= step->chunk_stream_id <= 65599
            &&& spec_potential(streams.insert(step->chunk_stream_id, step->state), 2)
                < spec_potential(streams, 2)
        }),
{
    reveal(spec_read_chunk);
    reveal(spec_read_after_basic);
    let step = spec_read_chunk(s, chunk_size, streams);
    let id = step->chunk_stream_id;
    lemma_chunk_length(s, chunk_size, streams);
    let basic = ChunkBasicHeader::spec_parse(s);
    let at_header = ChunkBasicHeader::spec_wire_len(s) as int;
    let t = s.skip(at_header);
    let format = basic.chunk_header_format;
    let header = ChunkMessageHeader::spec_parse(format, t)->Ok_0;
    ChunkMessageHeader::lemma_parse_is_valid(format, t);
    ChunkBasicHeader::lemma_parse_is_valid(s);
    let after_basic = spec_read_after_basic(t, basic, chunk_size, streams);
    assert(step == spec_shift_chunk(after_basic, at_header as nat));
    let u = t.skip(ChunkMessageHeader::spec_len_of(format) as int);
    let after_header = spec_read_after_header(
        u,
        basic.chunk_stream_id,
        header,
        chunk_size,
        streams,
    );
    assert(after_basic == spec_shift_chunk(
        after_header,
        ChunkMessageHeader::spec_len_of(format),
    ));
    lemma_after_header_prefix(
        u,
        Seq::empty(),
        basic.chunk_stream_id,
        header,
        chunk_size,
        streams,
    );
    assert(id == basic.chunk_stream_id);
    assert(step->state == after_header->state);
    lemma_after_header_progress(u, basic.chunk_stream_id, header, chunk_size, streams);
    lemma_potential_insert(streams, id, step->state, 2);
    assert(spec_weight(streams.insert(id, step->state), id as int) == spec_state_weight(
        step->state,
    ));
}

impl ChunkStreamState {
    /// The state of a chunk stream after a chunk's headers and before its
    /// payload.
    pub fn begin(
        prev: Option<ChunkStreamState>,
        chunk_stream_id: u32,
        header: ChunkMessageHeader,
        extended: Option<u32>,
    ) -> (r: Result<ChunkStreamState, Error>)
        requires
            prev matches Some(p) ==> p@.wf(),
            header.is_valid(),
        ensures
            match r {
                Ok(state) => spec_begin(
                    match prev {
                        Some(p) => Some(p@),
                        None => None,
                    },
                    chunk_stream_id,
                    header,
                    extended,
                ) == Ok::<ChunkStreamStateView, Error>(state@) && state@.wf()
                    && state@.buffer.len() + state@.bytes_remaining == state@.message_length,
                Err(e) => spec_begin(
                    match prev {
                        Some(p) => Some(p@),
                        None => None,
                    },
                    chunk_stream_id,
                    header,
                    extended,
                ) == Err::<ChunkStreamStateView, Error>(e),
            },
    {
        proof {
            reveal(spec_begin);
        }
        let had_extended_timestamp = header.is_extended_timestamp();
        let format = header.format();
        let in_progress = match &prev {
            Some(p) => p.bytes_remaining > 0,
            None => false,
        };
        match header {
            ChunkMessageHeader::Type0 {
                absolute_timestamp,
                message_length,
                message_type_id,
                message_stream_id,
            } => {
                if in_progress {
                    return Err(Error::MessageInProgress { chunk_stream_id, format });
                }
                let timestamp = match extended {
                    Some(t) => t,
                    None => absolute_timestamp,
                };
                Ok(
                    ChunkStreamState {
                        message_type_id,
                        message_stream_id,
                        message_length,
                        timestamp,
                        timestamp_delta: timestamp,
                        had_extended_timestamp,
                        bytes_remaining: message_length,
                        buffer: Vec::new(),
                    },
                )
            },
            ChunkMessageHeader::Type1 { timestamp_delta, message_length, message_type_id } => {
                let p = match prev {
                    Some(p) => p,
                    None => { return Err(Error::NoPriorChunk { chunk_stream_id, format }); },
                };
                if in_progress {
                    return Err(Error::MessageInProgress { chunk_stream_id, format });
                }
                let delta = match extended {
                    Some(t) => t,
                    None => timestamp_delta,
                };
                Ok(
                    ChunkStreamState {
                        message_type_id,
                        message_stream_id: p.message_stream_id,
                        message_length,
                        timestamp: p.timestamp.wrapping_add(delta),
                        timestamp_delta: delta,
                        had_extended_timestamp,
                        bytes_remaining: message_length,
                        buffer: Vec::new(),
                    },
                )
            },
            ChunkMessageHeader::Type2 { timestamp_delta } => {
                let p = match prev {
                    Some(p) => p,
                    None => { return Err(Error::NoPriorChunk { chunk_stream_id, format }); },
                };
                if in_progress {
                    return Err(Error::MessageInProgress { chunk_stream_id, format });
                }
                let delta = match extended {
                    Some(t) => t,
                    None => timestamp_delta,
                };
                Ok(
                    ChunkStreamState {
                        message_type_id: p.message_type_id,
                        message_stream_id: p.message_stream_id,
                        message_length: p.message_length,
                        timestamp: p.timestamp.wrapping_add(delta),
                        timestamp_delta: delta,
                        had_extended_timestamp,
                        bytes_remaining: p.message_length,
                        buffer: Vec::new(),
                    },
                )
            },
            ChunkMessageHeader::Type3 => {
                let p = match prev {
                    Some(p) => p,
                    None => { return Err(Error::NoPriorChunk { chunk_stream_id, format }); },
                };
                if in_progress {
                    return Ok(p);
                }
                Ok(
                    ChunkStreamState {
                        message_type_id: p.message_type_id,
                        message_stream_id: p.message_stream_id,
                        message_length: p.message_length,
                        timestamp: p.timestamp.wrapping_add(p.timestamp_delta),
                        timestamp_delta: p.timestamp_delta,
                        had_extended_timestamp: p.had_extended_timestamp,
                        bytes_remaining: p.message_length,
                        buffer: Vec::new(),
                    },
                )
            },
        }
    }

    /// The state of a chunk stream after a chunk's payload, and the message
    /// that the payload completes, if it completes one.
    pub fn accept(self, chunk_stream_id: u32, data: Vec<u8>) -> (r: (
        ChunkStreamState,
        Option<RTMPMessage>,
    ))
        requires
            self@.buffer.len() + self@.bytes_remaining == self@.message_length,
            self@.message_length <= 0xFF_FFFF,
            data@.len() <= self@.bytes_remaining,
        ensures
            (r.0@, match r.1 {
                Some(m) => Some(m@),
                None => None,
            }) == spec_accept(self@, chunk_stream_id, data@),
            r.0@.wf(),
    {
        let mut state = self;
        let mut data = data;
        let arrived = data.len() as u32;
        state.buffer.append(&mut data);
        if state.bytes_remaining == arrived {
            let mut payload: Vec<u8> = Vec::new();
            core::mem::swap(&mut payload, &mut state.buffer);
            state.bytes_remaining = 0;
            let message = RTMPMessage {
                timestamp: state.timestamp,
                message_type_id: state.message_type_id,
                message_stream_id: state.message_stream_id,
                chunk_stream_id,
                payload,
            };
            (state, Some(message))
        } else {
            state.bytes_remaining = state.bytes_remaining - arrived;
            (state, None)
        }
    }
}

/// Turns chunks into messages.
pub struct RTMPDechunker {}

impl RTMPDechunker {
    /// The message header of the given format that `bytes` hold.
    pub fn decode_message_header(format: u8, bytes: &[u8]) -> (r: Result<
        ChunkMessageHeader,
        Error,
    >)
        requires
            format <= 3,
        ensures
            match r {
                Ok(header) => bytes@.len() >= ChunkMessageHeader::spec_len_of(format)
                    && ChunkMessageHeader::spec_parse(format, bytes@) == Ok::<
                    ChunkMessageHeader,
                    u8,
                >(header) && header.is_valid() && header.spec_format() == format,
                Err(e) => if bytes@.len() < ChunkMessageHeader::spec_len_of(format) {
                    e == (Error::Incomplete {
                        needed: ChunkMessageHeader::spec_len_of(format) as usize,
                    })
                } else {
                    ChunkMessageHeader::spec_parse(format, bytes@) matches Err(byte) && e
                        == Error::InvalidMessageTypeId(byte)
                },
            },
    {
        let needed: usize = if format == 0 {
            11
        } else if format == 1 {
            7
        } else if format == 2 {
            3
        } else {
            0
        };
        if bytes.len() < needed {
            return Err(Error::Incomplete { needed });
        }
        if format == 3 {
            return Ok(ChunkMessageHeader::Type3);
        }
        let (i, timestamp) = match be_u24(bytes) {
            Ok(x) => x,
            Err(e) => { return Err(e); },
        };
        if format == 2 {
            return Ok(ChunkMessageHeader::Type2 { timestamp_delta: timestamp });
        }
        let (i, message_length) = match be_u24(i) {
            Ok(x) => x,
            Err(e) => { return Err(e); },
        };
        let (i, type_byte) = match be_u8(i) {
            Ok(x) => x,
            Err(e) => { return Err(e); },
        };
        assert(type_byte == bytes@[6]);
        let message_type_id = match MessageTypeId::from_u8(type_byte) {
            Some(t) => t,
            None => { return Err(Error::InvalidMessageTypeId(type_byte)); },
        };
        if format == 1 {
            return Ok(
                ChunkMessageHeader::Type1 {
                    timestamp_delta: timestamp,
                    message_length,
                    message_type_id,
                },
            );
        }
        assert(i@ =~= bytes@.skip(7));
        let (_, message_stream_id) = match le_u32(i) {
            Ok(x) => x,
            Err(e) => { return Err(e); },
        };
        Ok(
            ChunkMessageHeader::Type0 {
                absolute_timestamp: timestamp,
                message_length,
                message_type_id,
                message_stream_id,
            },
        )
    }

    /// Reads a basic header from the transport: one byte, and one or two
    /// more where the first byte calls for them.
    pub fn read_basic_header<T: Transport, F: Fn(TransactionResult, AmfValue, Vec<AmfValue>)>(
        context: &mut NetConnectionContext<T, F>,
    ) -> (r: Result<ChunkBasicHeader, Error>)
        ensures
            final(context).spec_same_session(old(context)),
            final(context).chunk_streams == old(context).chunk_streams,
            final(context).sent@ == old(context).sent@,
            final(context).received@ == old(context).received@ + final(context).spec_read_since(
                old(context),
            ),
            match r {
                Ok(header) => {
                    let read = final(context).spec_read_since(old(context));
                    &&& read.len() >= 1
                    &&& read.len() == ChunkBasicHeader::spec_wire_len(read)
                    &&& header == ChunkBasicHeader::spec_parse(read)
                    &&& header.is_valid()
                },
                Err(e) => e is Io,
            },
    {
        let first_byte = match context.read_u8() {
            Ok(b) => b,
            Err(e) => {
                assert(context.spec_read_since(old(context)) =~= Seq::<u8>::empty());
                assert(context.received@ =~= old(context).received@ + Seq::<u8>::empty());
                return Err(e);
            },
        };
        let format = first_byte / 64;
        let low = first_byte % 64;
        let ghost read;
        let chunk_stream_id: u32 = if low == 0 {
            let second = match context.read_u8() {
                Ok(b) => b,
                Err(e) => {
                    assert(context.spec_read_since(old(context)) =~= seq![first_byte]);
                    assert(context.received@ =~= old(context).received@ + seq![first_byte]);
                    return Err(e);
                },
            };
            proof {
                read = seq![first_byte, second];
            }
            64 + second as u32
        } else if low == 1 {
            let rest = match context.read_data(2) {
                Ok(b) => b,
                Err(e) => {
                    assert(context.spec_read_since(old(context)) =~= seq![first_byte]);
                    assert(context.received@ =~= old(context).received@ + seq![first_byte]);
                    return Err(e);
                },
            };
            proof {
                read = seq![first_byte, rest@[0], rest@[1]];
            }
            64 + rest[1] as u32 * 256 + rest[0] as u32
        } else {
            proof {
                read = seq![first_byte];
            }
            low as u32
        };
        assert(context.spec_read_since(old(context)) =~= read);
        assert(context.received@ =~= old(context).received@ + read);
        Ok(ChunkBasicHeader { chunk_header_format: format, chunk_stream_id })
    }

    /// Reads a message header of the given format from the transport: 11,
    /// 7, 3 or no bytes.
    pub fn read_message_header<T: Transport, F: Fn(TransactionResult, AmfValue, Vec<AmfValue>)>(
        context: &mut NetConnectionContext<T, F>,
        format: u8,
    ) -> (r: Result<ChunkMessageHeader, Error>)
        requires
            format <= 3,
        ensures
            final(context).spec_same_session(old(context)),
            final(context).chunk_streams == old(context).chunk_streams,
            final(context).sent@ == old(context).sent@,
            final(context).received@ == old(context).received@ + final(context).spec_read_since(
                old(context),
            ),
            match r {
                Ok(header) => {
                    let read = final(context).spec_read_since(old(context));
                    &&& read.len() == ChunkMessageHeader::spec_len_of(format)
                    &&& ChunkMessageHeader::spec_parse(format, read) == Ok::<
                        ChunkMessageHeader,
                        u8,
                    >(header)
                    &&& header.is_valid()
                    &&& header.spec_format() == format
                },
                Err(e) => e is Io || {
                    let read = final(context).spec_read_since(old(context));
                    &&& read.len() == ChunkMessageHeader::spec_len_of(format)
                    &&& ChunkMessageHeader::spec_parse(format, read) matches Err(byte)
                    &&& e == Error::InvalidMessageTypeId(byte)
                },
            },
    {
        let size: usize = if format == 0 {
            11
        } else if format == 1 {
            7
        } else if format == 2 {
            3
        } else {
            0
        };
        let bytes = match context.read_data(size) {
            Ok(b) => b,
            Err(e) => {
                assert(context.spec_read_since(old(context)) =~= Seq::<u8>::empty());
                assert(context.received@ =~= old(context).received@ + Seq::<u8>::empty());
                return Err(e);
            },
        };
        assert(context.spec_read_since(old(context)) =~= bytes@);
        RTMPDechunker::decode_message_header(format, bytes.as_slice())
    }

    /// Reads an extended timestamp from the transport: four bytes,
    /// big-endian.
    pub fn read_extended_timestamp<
        T: Transport,
        F: Fn(TransactionResult, AmfValue, Vec<AmfValue>),
    >(context: &mut NetConnectionContext<T, F>) -> (r: Result<ExtendedTimestamp, Error>)
        ensures
            final(context).spec_same_session(old(context)),
            final(context).chunk_streams == old(context).chunk_streams,
            final(context).sent@ == old(context).sent@,
            final(context).received@ == old(context).received@ + final(context).spec_read_since(
                old(context),
            ),
            match r {
                Ok(timestamp) => {
                    let read = final(context).spec_read_since(old(context));
                    &&& read.len() == 4
                    &&& timestamp.0 == spec_u32_be(read)
                },
                Err(e) => e is Io,
            },
    {
        let bytes = match context.read_data(4) {
            Ok(b) => b,
            Err(e) => {
                assert(context.spec_read_since(old(context)) =~= Seq::<u8>::empty());
                assert(context.received@ =~= old(context).received@ + Seq::<u8>::empty());
                return Err(e);
            },
        };
        assert(context.spec_read_since(old(context)) =~= bytes@);
        let (_, timestamp) = match be_u32(bytes.as_slice()) {
            Ok(x) => x,
            Err(e) => { return Err(e); },
        };
        Ok(ExtendedTimestamp(timestamp))
    }

    /// Reads one chunk from the transport and fits it into its chunk
    /// stream; gives the message that the chunk completes, if it completes
    /// one.
    pub fn read_chunk<T: Transport, F: Fn(TransactionResult, AmfValue, Vec<AmfValue>)>(
        context: &mut NetConnectionContext<T, F>,
    ) -> (r: Result<Option<RTMPMessage>, Error>)
        requires
            old(context).wf(),
        ensures
            final(context).wf(),
            final(context).spec_same_session(old(context)),
            final(context).sent@ == old(context).sent@,
            final(context).received@ == old(context).received@ + final(context).spec_read_since(
                old(context),
            ),
            match r {
                Ok(message) => {
                    let read = final(context).spec_read_since(old(context));
                    let step = spec_read_chunk(
                        read,
                        old(context).chunk_size,
                        old(context).spec_streams(),
                    );
                    &&& step is Read
                    &&& step->consumed == read.len()
                    &&& step->message == (match message {
                        Some(m) => Some(m@),
                        None => None,
                    })
                    &&& final(context).spec_streams() == old(context).spec_streams().insert(
                        step->chunk_stream_id,
                        step->state,
                    )
                },
                Err(e) => e is Io || spec_read_chunk(
                    final(context).spec_read_since(old(context)),
                    old(context).chunk_size,
                    old(context).spec_streams(),
                ) == ChunkStep::Invalid(e),
            },
    {
        let ghost r0 = context.received@;
        let ghost streams = context.spec_streams();
        let chunk_size = context.chunk_size;
        let basic = match RTMPDechunker::read_basic_header(context) {
            Ok(h) => h,
            Err(e) => { return Err(e); },
        };
        let ghost r1 = context.received@;
        let ghost c1 = r1.skip(r0.len() as int);
        let format = basic.chunk_header_format;
        let chunk_stream_id = basic.chunk_stream_id;
        let header_result = RTMPDechunker::read_message_header(context, format);
        let ghost r2 = context.received@;
        let ghost c2 = r2.skip(r1.len() as int);
        proof {
            assert(r2.skip(r0.len() as int) =~= c1 + c2);
            assert(r2 =~= r0 + (c1 + c2));
        }
        let header = match header_result {
            Ok(h) => h,
            Err(e) => {
                proof {
                    if !(e is Io) {
                        lemma_read_chunk_bad_header(c1, c2, chunk_size, streams);
                    }
                }
                return Err(e);
            },
        };
        let prev = context.chunk_streams.remove(&chunk_stream_id);
        let expects = match header {
            ChunkMessageHeader::Type3 => match &prev {
                Some(p) => p.had_extended_timestamp,
                None => false,
            },
            _ => header.is_extended_timestamp(),
        };
        let extended_result = if expects {
            match RTMPDechunker::read_extended_timestamp(context) {
                Ok(t) => Ok(Some(t.0)),
                Err(e) => Err(e),
            }
        } else {
            Ok(None)
        };
        let ghost r3 = context.received@;
        let ghost c3 = r3.skip(r2.len() as int);
        proof {
            assert(r3.skip(r0.len() as int) =~= c1 + c2 + c3);
            assert(r3 =~= r0 + (c1 + c2 + c3));
        }
        let extended = match extended_result {
            Ok(x) => x,
            Err(e) => { return Err(e); },
        };
        proof {
            lemma_read_chunk_parts(c1, c2, c3, Seq::empty(), chunk_size, streams);
        }
        let begun = match ChunkStreamState::begin(prev, chunk_stream_id, header, extended) {
            Ok(state) => state,
            Err(e) => { return Err(e); },
        };
        let wanted = if begun.bytes_remaining < chunk_size {
            begun.bytes_remaining
        } else {
            chunk_size
        };
        let data_result = context.read_data(wanted as usize);
        let ghost r4 = context.received@;
        let ghost c4 = r4.skip(r3.len() as int);
        proof {
            assert(r4.skip(r0.len() as int) =~= c1 + c2 + c3 + c4);
            assert(r4 =~= r0 + (c1 + c2 + c3 + c4));
        }
        let data = match data_result {
            Ok(d) => d,
            Err(e) => { return Err(e); },
        };
        proof {
            assert(c4 =~= data@);
            lemma_read_chunk_parts(c1, c2, c3, c4, chunk_size, streams);
        }
        let (state, message) = begun.accept(chunk_stream_id, data);
        let ghost state_view = state@;
        context.chunk_streams.insert(chunk_stream_id, state);
        proof {
            assert(context.spec_streams() =~= streams.insert(chunk_stream_id, state_view));
        }
        Ok(message)
    }

    /// Reads chunks from the transport until one of them completes a
    /// message, and gives that message. Chunks of other chunk streams that
    /// come in between are kept for the messages they belong to.
    pub fn read_chunks<T: Transport, F: Fn(TransactionResult, AmfValue, Vec<AmfValue>)>(
        context: &mut NetConnectionContext<T, F>,
    ) -> (r: Result<RTMPMessage, Error>)
        requires
            old(context).wf(),
        ensures
            final(context).wf(),
            final(context).spec_same_session(old(context)),
            final(context).sent@ == old(context).sent@,
            final(context).received@ == old(context).received@ + final(context).spec_read_since(
                old(context),
            ),
            match r {
                Ok(message) => spec_read_message(
                    final(context).spec_read_since(old(context)),
                    old(context).chunk_size,
                    old(context).spec_streams(),
                ) == (MessageStep::Read {
                    consumed: final(context).spec_read_since(old(context)).len(),
                    message: message@,
                    streams: final(context).spec_streams(),
                }),
                Err(e) => e is Io || spec_read_message(
                    final(context).spec_read_since(old(context)),
                    old(context).chunk_size,
                    old(context).spec_streams(),
                ) == MessageStep::Invalid(e),
            },
    {
        let ghost r0 = context.received@;
        let ghost streams0 = context.spec_streams();
        let ghost chunk_size = context.chunk_size;
        proof {
            assert(context.received@.skip(r0.len() as int) =~= Seq::<u8>::empty());
            assert(context.received@ =~= r0 + Seq::<u8>::empty());
        }
        loop
            invariant
                context.wf(),
                context.spec_same_session(old(context)),
                context.sent@ == old(context).sent@,
                r0 == old(context).received@,
                streams0 == old(context).spec_streams(),
                chunk_size == old(context).chunk_size,
                context.received@ == r0 + context.received@.skip(r0.len() as int),
                spec_after_chunks(context.received@.skip(r0.len() as int), chunk_size, streams0)
                    == Some(context.spec_streams()),
            decreases spec_potential(context.spec_streams(), 2),
        {
            let ghost before = context.received@;
            let ghost p = before.skip(r0.len() as int);
            let ghost streams = context.spec_streams();
            let result = RTMPDechunker::read_chunk(context);
            proof {
                let c = context.received@.skip(before.len() as int);
                let read = context.received@.skip(r0.len() as int);
                assert(read =~= p + c);
                assert(context.received@ =~= r0 + read);
                lemma_read_message_append(p, c, chunk_size, streams0);
                match result {
                    Ok(None) => {
                        lemma_after_chunks_append(p, c, chunk_size, streams0);
                        lemma_chunk_progress(c, chunk_size, streams);
                    },
                    _ => {},
                }
            }
            match result {
                Ok(Some(message)) => { return Ok(message); },
                Ok(None) => {},
                Err(e) => { return Err(e); },
            }
        }
    }
}

} // verus!
