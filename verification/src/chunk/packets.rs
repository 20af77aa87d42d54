//! The data carried by the chunk stream layer, and its wire format.

use crate::utils::bytes::{
    lemma_u24_be_of_prefix, lemma_u32_le_of_prefix, spec_u24_be, spec_u32_le, u24_be_bytes,
    u32_be_bytes, u32_le_bytes,
};
use vstd::prelude::*;
use vstd::std_specs::convert::TryFromSpecImpl;

verus! {

/// The one-byte tag that says what a message carries.
#[derive(Debug, Clone, Copy, PartialEq, Eq, Structural)]
pub enum MessageTypeId {
    /// Announces a new maximum chunk size.
    SetChunkSize,
    /// Tells the peer to drop a partially received message.
    AbortMessage,
    /// Reports how many bytes have been received so far.
    Acknowledgement,
    /// Carries a user control event.
    UserControlMessage,
    /// Announces the window between acknowledgements.
    WindowAcknowledgementSize,
    /// Limits the peer's output bandwidth.
    SetPeerBandwidth,
    /// Audio data.
    AudioData,
    /// Video data.
    VideoData,
    /// Metadata or user data, AMF3-encoded.
    DataAMF3,
    /// Metadata or user data, AMF0-encoded.
    DataAMF0,
    /// Shared object events, AMF3-encoded.
    SharedObjectAMF3,
    /// Shared object events, AMF0-encoded.
    SharedObjectAMF0,
    /// A command, AMF0-encoded.
    CommandAMF0,
    /// A command, AMF3-encoded.
    CommandAMF3,
    /// A series of sub-messages.
    AggregateMessage,
}

impl MessageTypeId {
    /// The tag's value on the wire.
    pub open spec fn spec_to_u8(self) -> u8 {
        match self {
            MessageTypeId::SetChunkSize => 0x01,
            MessageTypeId::AbortMessage => 0x02,
            MessageTypeId::Acknowledgement => 0x03,
            MessageTypeId::UserControlMessage => 0x04,
            MessageTypeId::WindowAcknowledgementSize => 0x05,
            MessageTypeId::SetPeerBandwidth => 0x06,
            MessageTypeId::AudioData => 0x08,
            MessageTypeId::VideoData => 0x09,
            MessageTypeId::DataAMF3 => 0x0F,
            MessageTypeId::SharedObjectAMF3 => 0x10,
            MessageTypeId::CommandAMF3 => 0x11,
            MessageTypeId::DataAMF0 => 0x12,
            MessageTypeId::SharedObjectAMF0 => 0x13,
            MessageTypeId::CommandAMF0 => 0x14,
            MessageTypeId::AggregateMessage => 0x16,
        }
    }

    /// The tag with the given wire value, if there is one.
    pub open spec fn spec_from_u8(value: u8) -> Option<MessageTypeId> {
        if value == 0x01 {
            Some(MessageTypeId::SetChunkSize)
        } else if value == 0x02 {
            Some(MessageTypeId::AbortMessage)
        } else if value == 0x03 {
            Some(MessageTypeId::Acknowledgement)
        } else if value == 0x04 {
            Some(MessageTypeId::UserControlMessage)
        } else if value == 0x05 {
            Some(MessageTypeId::WindowAcknowledgementSize)
        } else if value == 0x06 {
            Some(MessageTypeId::SetPeerBandwidth)
        } else if value == 0x08 {
            Some(MessageTypeId::AudioData)
        } else if value == 0x09 {
            Some(MessageTypeId::VideoData)
        } else if value == 0x0F {
            Some(MessageTypeId::DataAMF3)
        } else if value == 0x10 {
            Some(MessageTypeId::SharedObjectAMF3)
        } else if value == 0x11 {
            Some(MessageTypeId::CommandAMF3)
        } else if value == 0x12 {
            Some(MessageTypeId::DataAMF0)
        } else if value == 0x13 {
            Some(MessageTypeId::SharedObjectAMF0)
        } else if value == 0x14 {
            Some(MessageTypeId::CommandAMF0)
        } else if value == 0x16 {
            Some(MessageTypeId::AggregateMessage)
        } else {
            None
        }
    }

    /// The tag's value on the wire.
    pub fn to_u8(self) -> (r: u8)
        ensures
            r == self.spec_to_u8(),
    {
        match self {
            MessageTypeId::SetChunkSize => 0x01,
            MessageTypeId::AbortMessage => 0x02,
            MessageTypeId::Acknowledgement => 0x03,
            MessageTypeId::UserControlMessage => 0x04,
            MessageTypeId::WindowAcknowledgementSize => 0x05,
            MessageTypeId::SetPeerBandwidth => 0x06,
            MessageTypeId::AudioData => 0x08,
            MessageTypeId::VideoData => 0x09,
            MessageTypeId::DataAMF3 => 0x0F,
            MessageTypeId::SharedObjectAMF3 => 0x10,
            MessageTypeId::CommandAMF3 => 0x11,
            MessageTypeId::DataAMF0 => 0x12,
            MessageTypeId::SharedObjectAMF0 => 0x13,
            MessageTypeId::CommandAMF0 => 0x14,
            MessageTypeId::AggregateMessage => 0x16,
        }
    }

    /// The tag with the given wire value, if there is one.
    pub fn from_u8(value: u8) -> (r: Option<MessageTypeId>)
        ensures
            r == Self::spec_from_u8(value),
    {
        match value {
            0x01 => Some(MessageTypeId::SetChunkSize),
            0x02 => Some(MessageTypeId::AbortMessage),
            0x03 => Some(MessageTypeId::Acknowledgement),
            0x04 => Some(MessageTypeId::UserControlMessage),
            0x05 => Some(MessageTypeId::WindowAcknowledgementSize),
            0x06 => Some(MessageTypeId::SetPeerBandwidth),
            0x08 => Some(MessageTypeId::AudioData),
            0x09 => Some(MessageTypeId::VideoData),
            0x0F => Some(MessageTypeId::DataAMF3),
            0x10 => Some(MessageTypeId::SharedObjectAMF3),
            0x11 => Some(MessageTypeId::CommandAMF3),
            0x12 => Some(MessageTypeId::DataAMF0),
            0x13 => Some(MessageTypeId::SharedObjectAMF0),
            0x14 => Some(MessageTypeId::CommandAMF0),
            0x16 => Some(MessageTypeId::AggregateMessage),
            _ => None,
        }
    }

    /// Every tag is found again from its wire value, and only the fifteen
    /// wire values of the table name a tag.
    pub proof fn lemma_wire_value_roundtrip(self)
        ensures
            Self::spec_from_u8(self.spec_to_u8()) == Some(self),
    {
    }

    /// A wire value that names a tag is that tag's wire value.
    pub proof fn lemma_tag_roundtrip(value: u8)
        ensures
            Self::spec_from_u8(value) matches Some(t) ==> t.spec_to_u8() == value,
    {
    }
}

impl TryFrom<u8> for MessageTypeId {
    type Error = &'static str;

    fn try_from(value: u8) -> (r: Result<Self, Self::Error>) {
        match MessageTypeId::from_u8(value) {
            Some(t) => Ok(t),
            None => Err("Invalid message type ID"),
        }
    }
}

impl TryFromSpecImpl<u8> for MessageTypeId {
    open spec fn obeys_try_from_spec() -> bool {
        true
    }

    open spec fn try_from_spec(value: u8) -> Result<Self, &'static str> {
        match MessageTypeId::spec_from_u8(value) {
            Some(t) => Ok(t),
            None => Err("Invalid message type ID"),
        }
    }
}

/// The chunk stream a message category conventionally travels on.
#[derive(Debug, Clone, Copy, PartialEq, Eq, Structural)]
pub enum ChunkImportance {
    /// Protocol control and user control messages: chunk stream 2.
    ProtocolUserControl,
    /// AMF0 and AMF3 commands: chunk stream 3.
    CommandAMF0AMF3,
    /// Audio: chunk stream 4.
    Audio,
    /// Video: chunk stream 5.
    Video,
    /// AMF0 and AMF3 data: chunk stream 6.
    DataAMF0AMF3,
}

impl ChunkImportance {
    /// The chunk stream id of this category.
    pub open spec fn spec_to_u32(self) -> u32 {
        match self {
            ChunkImportance::ProtocolUserControl => 2,
            ChunkImportance::CommandAMF0AMF3 => 3,
            ChunkImportance::Audio => 4,
            ChunkImportance::Video => 5,
            ChunkImportance::DataAMF0AMF3 => 6,
        }
    }

    /// The category that owns the given chunk stream id, if any.
    pub open spec fn spec_from_u8(value: u8) -> Option<ChunkImportance> {
        if value == 2 {
            Some(ChunkImportance::ProtocolUserControl)
        } else if value == 3 {
            Some(ChunkImportance::CommandAMF0AMF3)
        } else if value == 4 {
            Some(ChunkImportance::Audio)
        } else if value == 5 {
            Some(ChunkImportance::Video)
        } else if value == 6 {
            Some(ChunkImportance::DataAMF0AMF3)
        } else {
            None
        }
    }

    /// The chunk stream that messages of the given type are sent on.
    pub open spec fn spec_for_message_type(message_type_id: MessageTypeId) -> ChunkImportance {
        match message_type_id {
            MessageTypeId::SetChunkSize
            | MessageTypeId::AbortMessage
            | MessageTypeId::Acknowledgement
            | MessageTypeId::UserControlMessage
            | MessageTypeId::WindowAcknowledgementSize
            | MessageTypeId::SetPeerBandwidth => ChunkImportance::ProtocolUserControl,
            MessageTypeId::CommandAMF0 | MessageTypeId::CommandAMF3 => ChunkImportance::CommandAMF0AMF3,
            MessageTypeId::AudioData => ChunkImportance::Audio,
            MessageTypeId::VideoData => ChunkImportance::Video,
            MessageTypeId::DataAMF3
            | MessageTypeId::DataAMF0
            | MessageTypeId::SharedObjectAMF3
            | MessageTypeId::SharedObjectAMF0
            | MessageTypeId::AggregateMessage => ChunkImportance::DataAMF0AMF3,
        }
    }

    /// The chunk stream id of this category.
    pub fn to_u32(self) -> (r: u32)
        ensures
            r == self.spec_to_u32(),
            2 <= r <= 6,
    {
        match self {
            ChunkImportance::ProtocolUserControl => 2,
            ChunkImportance::CommandAMF0AMF3 => 3,
            ChunkImportance::Audio => 4,
            ChunkImportance::Video => 5,
            ChunkImportance::DataAMF0AMF3 => 6,
        }
    }

    /// The category that owns the given chunk stream id, if any.
    pub fn from_u8(value: u8) -> (r: Option<ChunkImportance>)
        ensures
            r == Self::spec_from_u8(value),
    {
        match value {
            2 => Some(ChunkImportance::ProtocolUserControl),
            3 => Some(ChunkImportance::CommandAMF0AMF3),
            4 => Some(ChunkImportance::Audio),
            5 => Some(ChunkImportance::Video),
            6 => Some(ChunkImportance::DataAMF0AMF3),
            _ => None,
        }
    }

    /// The chunk stream that messages of the given type are sent on.
    pub fn for_message_type(message_type_id: MessageTypeId) -> (r: ChunkImportance)
        ensures
            r == Self::spec_for_message_type(message_type_id),
    {
        match message_type_id {
            MessageTypeId::SetChunkSize
            | MessageTypeId::AbortMessage
            | MessageTypeId::Acknowledgement
            | MessageTypeId::UserControlMessage
            | MessageTypeId::WindowAcknowledgementSize
            | MessageTypeId::SetPeerBandwidth => ChunkImportance::ProtocolUserControl,
            MessageTypeId::CommandAMF0 | MessageTypeId::CommandAMF3 => ChunkImportance::CommandAMF0AMF3,
            MessageTypeId::AudioData => ChunkImportance::Audio,
            MessageTypeId::VideoData => ChunkImportance::Video,
            MessageTypeId::DataAMF3
            | MessageTypeId::DataAMF0
            | MessageTypeId::SharedObjectAMF3
            | MessageTypeId::SharedObjectAMF0
            | MessageTypeId::AggregateMessage => ChunkImportance::DataAMF0AMF3,
        }
    }
}

impl TryFrom<u8> for ChunkImportance {
    type Error = &'static str;

    fn try_from(value: u8) -> (r: Result<Self, Self::Error>) {
        match ChunkImportance::from_u8(value) {
            Some(t) => Ok(t),
            None => Err("Invalid chunk importance ID"),
        }
    }
}

impl TryFromSpecImpl<u8> for ChunkImportance {
    open spec fn obeys_try_from_spec() -> bool {
        true
    }

    open spec fn try_from_spec(value: u8) -> Result<Self, &'static str> {
        match ChunkImportance::spec_from_u8(value) {
            Some(t) => Ok(t),
            None => Err("Invalid chunk importance ID"),
        }
    }
}

/// The smallest legal chunk stream id.
pub const MIN_CHUNK_STREAM_ID: u32 = 2;

/// The largest chunk stream id the basic header can carry.
pub const MAX_CHUNK_STREAM_ID: u32 = 65599;

/// The value of a 24-bit timestamp field that announces an extended timestamp.
pub const EXTENDED_TIMESTAMP_MARKER: u32 = 0xFF_FFFF;

/// The start of every chunk: the header format and the chunk stream id.
#[derive(Debug, Clone, Copy, PartialEq, Eq, Structural)]
pub struct ChunkBasicHeader {
    pub chunk_header_format: u8,
    pub chunk_stream_id: u32,
}

impl ChunkBasicHeader {
    /// The format is one of the four, and the id is one the wire can carry.
    pub open spec fn is_valid(self) -> bool {
        &&& self.chunk_header_format <= 3
        &&& MIN_CHUNK_STREAM_ID <= self.chunk_stream_id <= MAX_CHUNK_STREAM_ID
    }

    /// The header on the wire, in the shortest of its three forms.
    pub open spec fn spec_bytes(self) -> Seq<u8> {
        let format = self.chunk_header_format as int;
        let id = self.chunk_stream_id as int;
        if id < 64 {
            seq![(format * 64 + id) as u8]
        } else if id < 320 {
            seq![(format * 64) as u8, (id - 64) as u8]
        } else {
            seq![(format * 64 + 1) as u8, ((id - 64) % 256) as u8, ((id - 64) / 256) as u8]
        }
    }

    /// How many bytes of the header follow a given first byte.
    pub open spec fn spec_extra_len(first: u8) -> nat {
        if first % 64 == 0 {
            1
        } else if first % 64 == 1 {
            2
        } else {
            0
        }
    }

    /// How long the header at the front of `s` is.
    pub open spec fn spec_wire_len(s: Seq<u8>) -> nat
        recommends
            s.len() >= 1,
    {
        1 + Self::spec_extra_len(s[0])
    }

    /// The header at the front of `s`.
    pub open spec fn spec_parse(s: Seq<u8>) -> ChunkBasicHeader
        recommends
            s.len() >= 1,
            s.len() >= Self::spec_wire_len(s),
    {
        let format = s[0] / 64;
        let low = s[0] % 64;
        if low == 0 {
            ChunkBasicHeader { chunk_header_format: format, chunk_stream_id: (64 + s[1]) as u32 }
        } else if low == 1 {
            ChunkBasicHeader {
                chunk_header_format: format,
                chunk_stream_id: (64 + s[2] * 256 + s[1]) as u32,
            }
        } else {
            ChunkBasicHeader { chunk_header_format: format, chunk_stream_id: low as u32 }
        }
    }

    /// Whatever bytes a basic header is read from, it is a valid one.
    pub proof fn lemma_parse_is_valid(s: Seq<u8>)
        requires
            s.len() >= 1,
            s.len() >= Self::spec_wire_len(s),
        ensures
            Self::spec_parse(s).is_valid(),
    {
    }

    /// A valid header is read back from its own bytes, whatever follows them.
    pub proof fn lemma_roundtrip(self, tail: Seq<u8>)
        requires
            self.is_valid(),
        ensures
            Self::spec_wire_len(self.spec_bytes() + tail) == self.spec_bytes().len(),
            Self::spec_parse(self.spec_bytes() + tail) == self,
    {
    }

    /// The header at the front of a byte sequence does not depend on what
    /// follows it.
    pub proof fn lemma_parse_prefix(a: Seq<u8>, b: Seq<u8>)
        requires
            a.len() >= 1,
            a.len() >= Self::spec_wire_len(a),
        ensures
            Self::spec_wire_len(a + b) == Self::spec_wire_len(a),
            Self::spec_parse(a + b) == Self::spec_parse(a),
    {
        assert((a + b)[0] == a[0]);
        if a.len() >= 2 {
            assert((a + b)[1] == a[1]);
        }
        if a.len() >= 3 {
            assert((a + b)[2] == a[2]);
        }
    }

    /// The written form is the shortest: no byte sequence that reads as this
    /// header is shorter than the one written for it.
    pub proof fn lemma_encoding_is_minimal(self, s: Seq<u8>)
        requires
            self.is_valid(),
            s.len() >= 1,
            s.len() >= Self::spec_wire_len(s),
            Self::spec_parse(s) == self,
        ensures
            self.spec_bytes().len() <= Self::spec_wire_len(s),
            self.spec_bytes().len() == if self.chunk_stream_id <= 63 {
                1nat
            } else if self.chunk_stream_id <= 319 {
                2nat
            } else {
                3nat
            },
    {
    }
}

/// The message header of a chunk, in one of its four formats. The timestamp
/// fields hold what the 24-bit wire field holds.
#[derive(Debug, Clone, Copy, PartialEq, Eq, Structural)]
pub enum ChunkMessageHeader {
    /// Format 0: everything is given; starts a new message.
    Type0 {
        absolute_timestamp: u32,
        message_length: u32,
        message_type_id: MessageTypeId,
        message_stream_id: u32,
    },
    /// Format 1: the message stream id is that of the previous chunk.
    Type1 { timestamp_delta: u32, message_length: u32, message_type_id: MessageTypeId },
    /// Format 2: only the timestamp delta is given.
    Type2 { timestamp_delta: u32 },
    /// Format 3: everything is taken from the previous chunk.
    Type3,
}

impl ChunkMessageHeader {
    /// The number of this header's format.
    pub open spec fn spec_format(self) -> u8 {
        match self {
            ChunkMessageHeader::Type0 { .. } => 0,
            ChunkMessageHeader::Type1 { .. } => 1,
            ChunkMessageHeader::Type2 { .. } => 2,
            ChunkMessageHeader::Type3 => 3,
        }
    }

    /// The 24-bit timestamp field of the header, if it has one.
    pub open spec fn spec_timestamp_field(self) -> Option<u32> {
        match self {
            ChunkMessageHeader::Type0 { absolute_timestamp, .. } => Some(absolute_timestamp),
            ChunkMessageHeader::Type1 { timestamp_delta, .. } => Some(timestamp_delta),
            ChunkMessageHeader::Type2 { timestamp_delta } => Some(timestamp_delta),
            ChunkMessageHeader::Type3 => None,
        }
    }

    /// Whether the header's own timestamp field announces an extended timestamp.
    pub open spec fn spec_is_extended_timestamp(self) -> bool {
        self.spec_timestamp_field() == Some(EXTENDED_TIMESTAMP_MARKER)
    }

    /// Every field fits its place on the wire.
    pub open spec fn is_valid(self) -> bool {
        match self {
            ChunkMessageHeader::Type0 { absolute_timestamp, message_length, .. } => {
                absolute_timestamp <= 0xFF_FFFF && message_length <= 0xFF_FFFF
            },
            ChunkMessageHeader::Type1 { timestamp_delta, message_length, .. } => {
                timestamp_delta <= 0xFF_FFFF && message_length <= 0xFF_FFFF
            },
            ChunkMessageHeader::Type2 { timestamp_delta } => timestamp_delta <= 0xFF_FFFF,
            ChunkMessageHeader::Type3 => true,
        }
    }

    /// How long a header of the given format is on the wire.
    pub open spec fn spec_len_of(format: u8) -> nat {
        if format == 0 {
            11
        } else if format == 1 {
            7
        } else if format == 2 {
            3
        } else {
            0
        }
    }

    /// The header on the wire. Of a field wider than 24 bits the low 24 are written.
    pub open spec fn spec_bytes(self) -> Seq<u8> {
        match self {
            ChunkMessageHeader::Type0 {
                absolute_timestamp,
                message_length,
                message_type_id,
                message_stream_id,
            } => u24_be_bytes(absolute_timestamp) + u24_be_bytes(message_length)
                + seq![message_type_id.spec_to_u8()] + u32_le_bytes(message_stream_id),
            ChunkMessageHeader::Type1 { timestamp_delta, message_length, message_type_id } => {
                u24_be_bytes(timestamp_delta) + u24_be_bytes(message_length)
                    + seq![message_type_id.spec_to_u8()]
            },
            ChunkMessageHeader::Type2 { timestamp_delta } => u24_be_bytes(timestamp_delta),
            ChunkMessageHeader::Type3 => Seq::empty(),
        }
    }

    /// The header of the given format at the front of `s`, or the byte that
    /// stands where a message type id should and is none.
    pub open spec fn spec_parse(format: u8, s: Seq<u8>) -> Result<ChunkMessageHeader, u8>
        recommends
            format <= 3,
            s.len() >= Self::spec_len_of(format),
    {
        if format == 0 {
            match MessageTypeId::spec_from_u8(s[6]) {
                Some(message_type_id) => Ok(
                    ChunkMessageHeader::Type0 {
                        absolute_timestamp: spec_u24_be(s) as u32,
                        message_length: spec_u24_be(s.skip(3)) as u32,
                        message_type_id,
                        message_stream_id: spec_u32_le(s.skip(7)) as u32,
                    },
                ),
                None => Err(s[6]),
            }
        } else if format == 1 {
            match MessageTypeId::spec_from_u8(s[6]) {
                Some(message_type_id) => Ok(
                    ChunkMessageHeader::Type1 {
                        timestamp_delta: spec_u24_be(s) as u32,
                        message_length: spec_u24_be(s.skip(3)) as u32,
                        message_type_id,
                    },
                ),
                None => Err(s[6]),
            }
        } else if format == 2 {
            Ok(ChunkMessageHeader::Type2 { timestamp_delta: spec_u24_be(s) as u32 })
        } else {
            Ok(ChunkMessageHeader::Type3)
        }
    }

    /// The header at the front of a byte sequence does not depend on what
    /// follows it.
    pub proof fn lemma_parse_prefix(format: u8, a: Seq<u8>, b: Seq<u8>)
        requires
            a.len() >= Self::spec_len_of(format),
        ensures
            Self::spec_parse(format, a + b) == Self::spec_parse(format, a),
    {
        let s = a + b;
        if format == 0 || format == 1 || format == 2 {
            assert(s[0] == a[0] && s[1] == a[1] && s[2] == a[2]);
        }
        if format == 0 || format == 1 {
            assert(s[6] == a[6]);
            assert(s.skip(3)[0] == a.skip(3)[0] && s.skip(3)[1] == a.skip(3)[1] && s.skip(3)[2]
                == a.skip(3)[2]);
        }
        if format == 0 {
            assert(s.skip(7)[0] == a.skip(7)[0] && s.skip(7)[1] == a.skip(7)[1] && s.skip(7)[2]
                == a.skip(7)[2] && s.skip(7)[3] == a.skip(7)[3]);
        }
    }

    /// Whatever bytes a message header is read from, its fields fit their
    /// places.
    pub proof fn lemma_parse_is_valid(format: u8, s: Seq<u8>)
        requires
            s.len() >= Self::spec_len_of(format),
        ensures
            Self::spec_parse(format, s) matches Ok(header) ==> header.is_valid()
                && header.spec_format() == (if format <= 3 {
                format
            } else {
                3
            }),
    {
    }

    /// Whether the header's own timestamp field announces an extended timestamp.
    pub fn is_extended_timestamp(&self) -> (r: bool)
        ensures
            r == self.spec_is_extended_timestamp(),
    {
        match self {
            ChunkMessageHeader::Type0 { absolute_timestamp, .. } => {
                *absolute_timestamp == EXTENDED_TIMESTAMP_MARKER
            },
            ChunkMessageHeader::Type1 { timestamp_delta, .. } => {
                *timestamp_delta == EXTENDED_TIMESTAMP_MARKER
            },
            ChunkMessageHeader::Type2 { timestamp_delta } => {
                *timestamp_delta == EXTENDED_TIMESTAMP_MARKER
            },
            ChunkMessageHeader::Type3 => false,
        }
    }

    /// The number of this header's format.
    pub fn format(&self) -> (r: u8)
        ensures
            r == self.spec_format(),
    {
        match self {
            ChunkMessageHeader::Type0 { .. } => 0,
            ChunkMessageHeader::Type1 { .. } => 1,
            ChunkMessageHeader::Type2 { .. } => 2,
            ChunkMessageHeader::Type3 => 3,
        }
    }

    /// A header whose fields fit is read back from its own bytes, whatever
    /// follows them, and its bytes have the length of its format.
    pub proof fn lemma_roundtrip(self, tail: Seq<u8>)
        requires
            self.is_valid(),
        ensures
            self.spec_bytes().len() == Self::spec_len_of(self.spec_format()),
            Self::spec_parse(self.spec_format(), self.spec_bytes() + tail) == Ok::<
                ChunkMessageHeader,
                u8,
            >(self),
    {
        let s = self.spec_bytes() + tail;
        match self {
            ChunkMessageHeader::Type0 {
                absolute_timestamp,
                message_length,
                message_type_id,
                message_stream_id,
            } => {
                message_type_id.lemma_wire_value_roundtrip();
                assert(s.take(3) =~= u24_be_bytes(absolute_timestamp));
                lemma_u24_be_of_prefix(absolute_timestamp, s);
                assert(s.skip(3).take(3) =~= u24_be_bytes(message_length));
                lemma_u24_be_of_prefix(message_length, s.skip(3));
                assert(s[6] == message_type_id.spec_to_u8());
                assert(s.skip(7).take(4) =~= u32_le_bytes(message_stream_id));
                lemma_u32_le_of_prefix(message_stream_id, s.skip(7));
            },
            ChunkMessageHeader::Type1 { timestamp_delta, message_length, message_type_id } => {
                message_type_id.lemma_wire_value_roundtrip();
                assert(s.take(3) =~= u24_be_bytes(timestamp_delta));
                lemma_u24_be_of_prefix(timestamp_delta, s);
                assert(s.skip(3).take(3) =~= u24_be_bytes(message_length));
                lemma_u24_be_of_prefix(message_length, s.skip(3));
                assert(s[6] == message_type_id.spec_to_u8());
            },
            ChunkMessageHeader::Type2 { timestamp_delta } => {
                assert(s.take(3) =~= u24_be_bytes(timestamp_delta));
                lemma_u24_be_of_prefix(timestamp_delta, s);
            },
            ChunkMessageHeader::Type3 => {},
        }
    }
}

/// The 32-bit timestamp that follows a message header whose 24-bit field is
/// saturated.
#[derive(Debug, Clone, Copy, PartialEq, Eq, Structural)]
pub struct ExtendedTimestamp(pub u32);

/// One chunk as it travels: its headers and its share of a message's payload.
#[derive(Debug, PartialEq)]
pub struct RTMPChunk {
    pub basic_header: ChunkBasicHeader,
    pub message_header: ChunkMessageHeader,
    pub extended_timestamp: Option<ExtendedTimestamp>,
    pub data: Vec<u8>,
}

/// A chunk with its payload as a sequence.
pub struct RTMPChunkView {
    pub basic_header: ChunkBasicHeader,
    pub message_header: ChunkMessageHeader,
    pub extended_timestamp: Option<ExtendedTimestamp>,
    pub data: Seq<u8>,
}

impl View for RTMPChunk {
    type V = RTMPChunkView;

    open spec fn view(&self) -> RTMPChunkView {
        RTMPChunkView {
            basic_header: self.basic_header,
            message_header: self.message_header,
            extended_timestamp: self.extended_timestamp,
            data: self.data@,
        }
    }
}

impl RTMPChunkView {
    /// The chunk on the wire: basic header, message header, extended
    /// timestamp if it has one, payload.
    pub open spec fn spec_bytes(self) -> Seq<u8> {
        self.basic_header.spec_bytes() + self.message_header.spec_bytes() + (
        match self.extended_timestamp {
            Some(ExtendedTimestamp(t)) => u32_be_bytes(t),
            None => Seq::empty(),
        }) + self.data
    }
}

} // verus!
