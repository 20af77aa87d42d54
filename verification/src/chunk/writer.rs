//! Fragmentation: from a message to the chunks that carry it.

use crate::amf::AmfValue;
use crate::chunk::packets::{
    ChunkBasicHeader, ChunkMessageHeader, ExtendedTimestamp, RTMPChunkView,
    EXTENDED_TIMESTAMP_MARKER, MAX_CHUNK_STREAM_ID, MIN_CHUNK_STREAM_ID,
};
use crate::context::NetConnectionContext;
use crate::errors::Error;
use crate::net_connection::packets::{RTMPMessage, RTMPMessageView};
use crate::net_connection::transaction_manager::TransactionResult;
use crate::transport::Transport;
use crate::utils::bytes::{put_u24_be, put_u32_be, put_u32_le, u32_be_bytes};
use vstd::prelude::*;

verus! {

/// The smaller of two lengths.
pub open spec fn spec_min(a: int, b: int) -> int {
    if a <= b {
        a
    } else {
        b
    }
}

/// What a 24-bit timestamp field holds for a timestamp: the timestamp, or
/// the marker where the timestamp does not fit below it.
pub open spec fn spec_timestamp_field(timestamp: u32) -> u32 {
    if timestamp >= EXTENDED_TIMESTAMP_MARKER {
        EXTENDED_TIMESTAMP_MARKER
    } else {
        timestamp
    }
}

/// The extended timestamp that travels with a timestamp: the timestamp
/// itself where the 24-bit field holds the marker, else none.
pub open spec fn spec_extended(timestamp: u32) -> Option<ExtendedTimestamp> {
    if timestamp >= EXTENDED_TIMESTAMP_MARKER {
        Some(ExtendedTimestamp(timestamp))
    } else {
        None
    }
}

/// The header that begins a message: format 0, with everything given.
pub open spec fn spec_first_header(message: RTMPMessageView) -> ChunkMessageHeader {
    ChunkMessageHeader::Type0 {
        absolute_timestamp: spec_timestamp_field(message.timestamp),
        message_length: message.payload.len() as u32,
        message_type_id: message.message_type_id,
        message_stream_id: message.message_stream_id,
    }
}

/// The first chunk of a message: a format-0 header and the first
/// `chunk_size` bytes of the payload, or all of it where it is shorter.
pub open spec fn spec_first_chunk(message: RTMPMessageView, chunk_size: u32) -> RTMPChunkView {
    RTMPChunkView {
        basic_header: ChunkBasicHeader {
            chunk_header_format: 0,
            chunk_stream_id: message.chunk_stream_id,
        },
        message_header: spec_first_header(message),
        extended_timestamp: spec_extended(message.timestamp),
        data: message.payload.take(spec_min(message.payload.len() as int, chunk_size as int)),
    }
}

/// A chunk that carries a message on: a format-3 header, the extended
/// timestamp where the message has one, and the next `chunk_size` bytes of
/// what is left of the payload, or all of it where it is shorter.
pub open spec fn spec_next_chunk(
    chunk_stream_id: u32,
    timestamp: u32,
    rest: Seq<u8>,
    chunk_size: u32,
) -> RTMPChunkView {
    RTMPChunkView {
        basic_header: ChunkBasicHeader { chunk_header_format: 3, chunk_stream_id },
        message_header: ChunkMessageHeader::Type3,
        extended_timestamp: spec_extended(timestamp),
        data: rest.take(spec_min(rest.len() as int, chunk_size as int)),
    }
}

/// The chunks that carry what is left of a payload after its first chunk,
/// one behind the other.
pub open spec fn spec_continuation_bytes(
    chunk_stream_id: u32,
    timestamp: u32,
    rest: Seq<u8>,
    chunk_size: u32,
) -> Seq<u8>
    decreases rest.len(),
{
    if rest.len() == 0 || chunk_size == 0 {
        Seq::empty()
    } else {
        spec_next_chunk(chunk_stream_id, timestamp, rest, chunk_size).spec_bytes()
            + spec_continuation_bytes(
            chunk_stream_id,
            timestamp,
            rest.skip(spec_min(rest.len() as int, chunk_size as int)),
            chunk_size,
        )
    }
}

/// A message on the wire. A message of `L > 0` bytes travels in
/// `ceil(L / chunk_size)` chunks: the first has a format-0 header, the
/// others a format-3 header; each but the last carries `chunk_size` bytes.
/// An empty message is no chunk at all.
pub open spec fn spec_message_bytes(message: RTMPMessageView, chunk_size: u32) -> Seq<u8> {
    if message.payload.len() == 0 {
        Seq::empty()
    } else {
        spec_first_chunk(message, chunk_size).spec_bytes() + spec_continuation_bytes(
            message.chunk_stream_id,
            message.timestamp,
            message.payload.skip(spec_min(message.payload.len() as int, chunk_size as int)),
            chunk_size,
        )
    }
}

/// How many chunks carry a payload of the given length: the length
/// divided by the chunk size, rounded up.
pub open spec fn spec_chunk_count(length: nat, chunk_size: u32) -> nat
    decreases length,
{
    if length == 0 || chunk_size == 0 {
        0
    } else if length <= chunk_size {
        1
    } else {
        1 + spec_chunk_count((length - chunk_size) as nat, chunk_size)
    }
}

/// What every chunk of a message has before its payload, apart from the
/// message header of the first: the basic header and, where the message
/// has one, the extended timestamp.
pub open spec fn spec_chunk_overhead(chunk_stream_id: u32, timestamp: u32) -> nat {
    (ChunkBasicHeader { chunk_header_format: 3, chunk_stream_id }).spec_bytes().len() + if timestamp
        >= EXTENDED_TIMESTAMP_MARKER {
        4nat
    } else {
        0nat
    }
}

/// The chunks that carry a payload on are as many as the chunk size calls
/// for, and none carries more than its share.
pub proof fn lemma_continuation_len(
    chunk_stream_id: u32,
    timestamp: u32,
    rest: Seq<u8>,
    chunk_size: u32,
)
    requires
        chunk_size >= 1,
    ensures
        spec_continuation_bytes(chunk_stream_id, timestamp, rest, chunk_size).len() == rest.len()
            + spec_chunk_count(rest.len(), chunk_size) * spec_chunk_overhead(
            chunk_stream_id,
            timestamp,
        ),
    decreases rest.len(),
{
    let k = spec_chunk_overhead(chunk_stream_id, timestamp);
    if rest.len() == 0 {
        assert(0 * k == 0) by (nonlinear_arith);
    } else {
        let n = spec_min(rest.len() as int, chunk_size as int);
        lemma_continuation_len(chunk_stream_id, timestamp, rest.skip(n), chunk_size);
        let c = spec_chunk_count(rest.skip(n).len(), chunk_size);
        crate::utils::bytes::lemma_u32_be_roundtrip(timestamp);
        assert((1 + c) * k == k + c * k) by (nonlinear_arith);
        assert(1 * k == k) by (nonlinear_arith);
    }
}

/// A message of `L > 0` bytes travels in `ceil(L / chunk_size)` chunks:
/// on the wire it is its payload, the eleven bytes of the first message
/// header, and for every chunk a basic header and, where the message has
/// one, an extended timestamp.
pub proof fn lemma_message_len(message: RTMPMessageView, chunk_size: u32)
    requires
        chunk_size >= 1,
        message.payload.len() >= 1,
    ensures
        spec_message_bytes(message, chunk_size).len() == message.payload.len() + 11
            + spec_chunk_count(message.payload.len(), chunk_size) * spec_chunk_overhead(
            message.chunk_stream_id,
            message.timestamp,
        ),
{
    let k = spec_chunk_overhead(message.chunk_stream_id, message.timestamp);
    let n = spec_min(message.payload.len() as int, chunk_size as int);
    lemma_continuation_len(
        message.chunk_stream_id,
        message.timestamp,
        message.payload.skip(n),
        chunk_size,
    );
    let c = spec_chunk_count(message.payload.skip(n).len(), chunk_size);
    crate::utils::bytes::lemma_u32_be_roundtrip(message.timestamp);
    crate::utils::bytes::lemma_u24_be_roundtrip(spec_timestamp_field(message.timestamp));
    crate::utils::bytes::lemma_u24_be_roundtrip(message.payload.len() as u32);
    crate::utils::bytes::lemma_u32_le_roundtrip(message.message_stream_id);
    assert((1 + c) * k == k + c * k) by (nonlinear_arith);
    assert(1 * k == k) by (nonlinear_arith);
}

/// Turns messages into chunks.
pub struct RTMPChunker {}

impl RTMPChunker {
    /// Appends a basic header in the shortest form that holds its chunk
    /// stream id: one byte up to 63, two up to 319, three above.
    pub fn write_basic_header(buffer: &mut Vec<u8>, basic_header: ChunkBasicHeader)
        requires
            basic_header.is_valid(),
        ensures
            final(buffer)@ == old(buffer)@ + basic_header.spec_bytes(),
            basic_header.spec_bytes().len() == if basic_header.chunk_stream_id <= 63 {
                1nat
            } else if basic_header.chunk_stream_id <= 319 {
                2nat
            } else {
                3nat
            },
    {
        let format = basic_header.chunk_header_format;
        let chunk_stream_id = basic_header.chunk_stream_id;
        if chunk_stream_id >= 320 {
            buffer.push(format * 64 + 1);
            buffer.push(((chunk_stream_id - 64) % 256) as u8);
            buffer.push(((chunk_stream_id - 64) / 256) as u8);
        } else if chunk_stream_id >= 64 {
            buffer.push(format * 64);
            buffer.push((chunk_stream_id - 64) as u8);
        } else {
            buffer.push(format * 64 + chunk_stream_id as u8);
        }
        assert(buffer@ =~= old(buffer)@ + basic_header.spec_bytes());
    }

    /// Appends a message header. Of a timestamp or a length wider than 24
    /// bits the low 24 are written.
    pub fn write_message_header(buffer: &mut Vec<u8>, message_header: ChunkMessageHeader)
        ensures
            final(buffer)@ == old(buffer)@ + message_header.spec_bytes(),
    {
        match message_header {
            ChunkMessageHeader::Type0 {
                absolute_timestamp,
                message_length,
                message_type_id,
                message_stream_id,
            } => {
                put_u24_be(buffer, absolute_timestamp);
                put_u24_be(buffer, message_length);
                buffer.push(message_type_id.to_u8());
                put_u32_le(buffer, message_stream_id);
            },
            ChunkMessageHeader::Type1 { timestamp_delta, message_length, message_type_id } => {
                put_u24_be(buffer, timestamp_delta);
                put_u24_be(buffer, message_length);
                buffer.push(message_type_id.to_u8());
            },
            ChunkMessageHeader::Type2 { timestamp_delta } => {
                put_u24_be(buffer, timestamp_delta);
            },
            ChunkMessageHeader::Type3 => {},
        }
        assert(buffer@ =~= old(buffer)@ + message_header.spec_bytes());
    }

    /// Appends the extended timestamp of a chunk, if it has one.
    pub fn write_extended_timestamp(
        buffer: &mut Vec<u8>,
        extended_timestamp: Option<ExtendedTimestamp>,
    )
        ensures
            final(buffer)@ == old(buffer)@ + (match extended_timestamp {
                Some(ExtendedTimestamp(t)) => u32_be_bytes(t),
                None => Seq::empty(),
            }),
    {
        match extended_timestamp {
            Some(ExtendedTimestamp(t)) => {
                put_u32_be(buffer, t);
            },
            None => {
                assert(buffer@ =~= old(buffer)@ + Seq::<u8>::empty());
            },
        }
    }

    /// Appends one chunk: its headers and the bytes of `payload` from
    /// `from` up to `to`.
    pub fn write_chunk(
        buffer: &mut Vec<u8>,
        basic_header: ChunkBasicHeader,
        message_header: ChunkMessageHeader,
        extended_timestamp: Option<ExtendedTimestamp>,
        payload: &Vec<u8>,
        from: usize,
        to: usize,
    )
        requires
            basic_header.is_valid(),
            from <= to <= payload@.len(),
        ensures
            final(buffer)@ == old(buffer)@ + (RTMPChunkView {
                basic_header,
                message_header,
                extended_timestamp,
                data: payload@.subrange(from as int, to as int),
            }).spec_bytes(),
    {
        RTMPChunker::write_basic_header(buffer, basic_header);
        RTMPChunker::write_message_header(buffer, message_header);
        RTMPChunker::write_extended_timestamp(buffer, extended_timestamp);
        let ghost headers = buffer@;
        let mut i: usize = from;
        while i < to
            invariant
                from <= i <= to,
                to <= payload@.len(),
                buffer@ == headers + payload@.subrange(from as int, i as int),
            decreases to - i,
        {
            buffer.push(payload[i]);
            i += 1;
            assert(payload@.subrange(from as int, i as int) =~= payload@.subrange(
                from as int,
                i - 1,
            ).push(payload@[i - 1]));
        }
        assert(buffer@ =~= old(buffer)@ + (RTMPChunkView {
            basic_header,
            message_header,
            extended_timestamp,
            data: payload@.subrange(from as int, to as int),
        }).spec_bytes());
    }

    /// The wire form of a message for a given chunk size. A chunk stream id
    /// outside 2 ..= 65599 or a payload of 2^24 bytes or more is refused.
    pub fn fragment(rtmp_message: &RTMPMessage, chunk_size: u32) -> (r: Result<Vec<u8>, Error>)
        requires
            chunk_size >= 1,
        ensures
            match r {
                Ok(bytes) => {
                    &&& MIN_CHUNK_STREAM_ID <= rtmp_message.chunk_stream_id <= MAX_CHUNK_STREAM_ID
                    &&& rtmp_message.payload@.len() <= 0xFF_FFFF
                    &&& bytes@ == spec_message_bytes(rtmp_message@, chunk_size)
                },
                Err(e) => if !(MIN_CHUNK_STREAM_ID <= rtmp_message.chunk_stream_id
                    <= MAX_CHUNK_STREAM_ID) {
                    e == Error::InvalidChunkStreamId(rtmp_message.chunk_stream_id)
                } else {
                    rtmp_message.payload@.len() > 0xFF_FFFF && e == Error::MessageTooLong
                },
            },
    {
        let chunk_stream_id = rtmp_message.chunk_stream_id;
        if chunk_stream_id < MIN_CHUNK_STREAM_ID || chunk_stream_id > MAX_CHUNK_STREAM_ID {
            return Err(Error::InvalidChunkStreamId(chunk_stream_id));
        }
        let length = rtmp_message.payload.len();
        if length > 0xFF_FFFF {
            return Err(Error::MessageTooLong);
        }
        let mut buffer: Vec<u8> = Vec::new();
        if length == 0 {
            return Ok(buffer);
        }
        let timestamp = rtmp_message.timestamp;
        let extended_timestamp = if timestamp >= EXTENDED_TIMESTAMP_MARKER {
            Some(ExtendedTimestamp(timestamp))
        } else {
            None
        };
        let timestamp_field = if timestamp >= EXTENDED_TIMESTAMP_MARKER {
            EXTENDED_TIMESTAMP_MARKER
        } else {
            timestamp
        };
        let ghost payload = rtmp_message.payload@;
        let first = if length < chunk_size as usize {
            length
        } else {
            chunk_size as usize
        };
        RTMPChunker::write_chunk(
            &mut buffer,
            ChunkBasicHeader { chunk_header_format: 0, chunk_stream_id },
            ChunkMessageHeader::Type0 {
                absolute_timestamp: timestamp_field,
                message_length: length as u32,
                message_type_id: rtmp_message.message_type_id,
                message_stream_id: rtmp_message.message_stream_id,
            },
            extended_timestamp,
            &rtmp_message.payload,
            0,
            first,
        );
        assert(payload.subrange(0, first as int) =~= payload.take(first as int));
        assert(buffer@ =~= spec_first_chunk(rtmp_message@, chunk_size).spec_bytes());
        let mut offset: usize = first;
        while offset < length
            invariant
                offset <= length,
                length == payload.len(),
                payload == rtmp_message.payload@,
                chunk_size >= 1,
                MIN_CHUNK_STREAM_ID <= chunk_stream_id <= MAX_CHUNK_STREAM_ID,
                extended_timestamp == spec_extended(timestamp),
                spec_message_bytes(rtmp_message@, chunk_size) == buffer@ + spec_continuation_bytes(
                    chunk_stream_id,
                    timestamp,
                    payload.skip(offset as int),
                    chunk_size,
                ),
            decreases length - offset,
        {
            let ghost before = buffer@;
            let remaining = length - offset;
            let n = if remaining < chunk_size as usize {
                remaining
            } else {
                chunk_size as usize
            };
            RTMPChunker::write_chunk(
                &mut buffer,
                ChunkBasicHeader { chunk_header_format: 3, chunk_stream_id },
                ChunkMessageHeader::Type3,
                extended_timestamp,
                &rtmp_message.payload,
                offset,
                offset + n,
            );
            proof {
                let rest = payload.skip(offset as int);
                assert(rest.take(n as int) =~= payload.subrange(offset as int, offset + n));
                assert(rest.skip(n as int) =~= payload.skip(offset + n));
                let chunk = spec_next_chunk(chunk_stream_id, timestamp, rest, chunk_size);
                assert(buffer@ == before + chunk.spec_bytes());
                assert(before + (chunk.spec_bytes() + spec_continuation_bytes(
                    chunk_stream_id,
                    timestamp,
                    rest.skip(n as int),
                    chunk_size,
                )) =~= buffer@ + spec_continuation_bytes(
                    chunk_stream_id,
                    timestamp,
                    rest.skip(n as int),
                    chunk_size,
                ));
            }
            offset = offset + n;
        }
        proof {
            assert(payload.skip(offset as int) =~= Seq::<u8>::empty());
            assert(buffer@ + Seq::<u8>::empty() =~= buffer@);
        }
        Ok(buffer)
    }

    /// Sends a message: its wire form for the chunk size of the client goes
    /// to the transport in one piece. Where the message is refused or the
    /// transport fails, nothing is put on record as sent.
    pub fn write_chunks<T: Transport, F: Fn(TransactionResult, AmfValue, Vec<AmfValue>)>(
        rtmp_message: RTMPMessage,
        context: &mut NetConnectionContext<T, F>,
    ) -> (r: Result<(), Error>)
        requires
            old(context).wf(),
        ensures
            final(context).wf(),
            final(context).spec_same_session(old(context)),
            final(context).chunk_streams == old(context).chunk_streams,
            final(context).received@ == old(context).received@,
            final(context).bytes_received == old(context).bytes_received,
            match r {
                Ok(()) => {
                    &&& MIN_CHUNK_STREAM_ID <= rtmp_message.chunk_stream_id <= MAX_CHUNK_STREAM_ID
                    &&& rtmp_message.payload@.len() <= 0xFF_FFFF
                    &&& final(context).sent@ == old(context).sent@ + spec_message_bytes(
                        rtmp_message@,
                        old(context).outbound_chunk_size,
                    )
                },
                Err(e) => {
                    &&& final(context).sent@ == old(context).sent@
                    &&& if !(MIN_CHUNK_STREAM_ID <= rtmp_message.chunk_stream_id
                        <= MAX_CHUNK_STREAM_ID) {
                        e == Error::InvalidChunkStreamId(rtmp_message.chunk_stream_id)
                    } else if rtmp_message.payload@.len() > 0xFF_FFFF {
                        e == Error::MessageTooLong
                    } else {
                        e is Io
                    }
                },
            },
    {
        let buffer = RTMPChunker::fragment(&rtmp_message, context.outbound_chunk_size)?;
        context.write_data(buffer)
    }
}

} // verus!
