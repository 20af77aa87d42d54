//! The messages the connection understands.

use crate::amf::number::spec_number_from_u32;
use crate::amf::{spec_views, AmfValue, AmfValueView};
use crate::chunk::packets::MessageTypeId;
use crate::utils::bytes::{u16_be_bytes, u32_be_bytes};
use vstd::prelude::*;
use vstd::std_specs::convert::TryFromSpecImpl;

verus! {

/// The window between two acknowledgements, in bytes.
#[derive(Debug, Clone, Copy, PartialEq, Eq, Structural)]
pub struct WindowAcknowledgementSize {
    pub size: u32,
}

/// How many bytes the sender has received so far.
#[derive(Debug, Clone, Copy, PartialEq, Eq, Structural)]
pub struct Acknowledgement {
    pub sequence_number: u32,
}

/// An event of the streaming layer.
#[derive(Debug, Clone, Copy, PartialEq, Eq, Structural)]
pub enum UserControlMessage {
    StreamBegin { stream_id: u32 },
    StreamEOF { stream_id: u32 },
    StreamDry { stream_id: u32 },
    SetBufferLength { stream_id: u32, buffer_length: u32 },
    StreamIsRecorded { stream_id: u32 },
    PingRequest { timestamp: u32 },
    PingResponse { timestamp: u32 },
}

impl UserControlMessage {
    /// The event's tag on the wire.
    pub open spec fn spec_event_type(self) -> u16 {
        match self {
            UserControlMessage::StreamBegin { .. } => 0,
            UserControlMessage::StreamEOF { .. } => 1,
            UserControlMessage::StreamDry { .. } => 2,
            UserControlMessage::SetBufferLength { .. } => 3,
            UserControlMessage::StreamIsRecorded { .. } => 4,
            UserControlMessage::PingRequest { .. } => 6,
            UserControlMessage::PingResponse { .. } => 7,
        }
    }

    /// What follows the tag on the wire.
    pub open spec fn spec_body(self) -> Seq<u8> {
        match self {
            UserControlMessage::StreamBegin { stream_id } => u32_be_bytes(stream_id),
            UserControlMessage::StreamEOF { stream_id } => u32_be_bytes(stream_id),
            UserControlMessage::StreamDry { stream_id } => u32_be_bytes(stream_id),
            UserControlMessage::SetBufferLength { stream_id, buffer_length } => u32_be_bytes(
                stream_id,
            ) + u32_be_bytes(buffer_length),
            UserControlMessage::StreamIsRecorded { stream_id } => u32_be_bytes(stream_id),
            UserControlMessage::PingRequest { timestamp } => u32_be_bytes(timestamp),
            UserControlMessage::PingResponse { timestamp } => u32_be_bytes(timestamp),
        }
    }

    /// The event as a message payload: the tag, two bytes, then the body.
    pub open spec fn spec_bytes(self) -> Seq<u8> {
        u16_be_bytes(self.spec_event_type()) + self.spec_body()
    }

    /// The event's tag on the wire.
    pub fn event_type(&self) -> (r: u16)
        ensures
            r == self.spec_event_type(),
    {
        match self {
            UserControlMessage::StreamBegin { .. } => 0,
            UserControlMessage::StreamEOF { .. } => 1,
            UserControlMessage::StreamDry { .. } => 2,
            UserControlMessage::SetBufferLength { .. } => 3,
            UserControlMessage::StreamIsRecorded { .. } => 4,
            UserControlMessage::PingRequest { .. } => 6,
            UserControlMessage::PingResponse { .. } => 7,
        }
    }
}

/// How strictly a peer bandwidth limit is meant.
#[derive(Debug, Clone, Copy, PartialEq, Eq, Structural)]
pub enum PeerBandwidthLimitType {
    Hard,
    Soft,
    Dynamic,
}

impl PeerBandwidthLimitType {
    /// The limit type's value on the wire.
    pub open spec fn spec_to_u8(self) -> u8 {
        match self {
            PeerBandwidthLimitType::Hard => 0,
            PeerBandwidthLimitType::Soft => 1,
            PeerBandwidthLimitType::Dynamic => 2,
        }
    }

    /// The limit type with the given wire value, if there is one.
    pub open spec fn spec_from_u8(value: u8) -> Option<PeerBandwidthLimitType> {
        if value == 0 {
            Some(PeerBandwidthLimitType::Hard)
        } else if value == 1 {
            Some(PeerBandwidthLimitType::Soft)
        } else if value == 2 {
            Some(PeerBandwidthLimitType::Dynamic)
        } else {
            None
        }
    }

    /// The limit type's value on the wire.
    pub fn to_u8(self) -> (r: u8)
        ensures
            r == self.spec_to_u8(),
    {
        match self {
            PeerBandwidthLimitType::Hard => 0,
            PeerBandwidthLimitType::Soft => 1,
            PeerBandwidthLimitType::Dynamic => 2,
        }
    }

    /// The limit type with the given wire value, if there is one.
    pub fn from_u8(value: u8) -> (r: Option<PeerBandwidthLimitType>)
        ensures
            r == Self::spec_from_u8(value),
    {
        match value {
            0 => Some(PeerBandwidthLimitType::Hard),
            1 => Some(PeerBandwidthLimitType::Soft),
            2 => Some(PeerBandwidthLimitType::Dynamic),
            _ => None,
        }
    }
}

impl TryFrom<u8> for PeerBandwidthLimitType {
    type Error = ();

    fn try_from(value: u8) -> (r: Result<Self, Self::Error>) {
        match PeerBandwidthLimitType::from_u8(value) {
            Some(t) => Ok(t),
            None => Err(()),
        }
    }
}

impl TryFromSpecImpl<u8> for PeerBandwidthLimitType {
    open spec fn obeys_try_from_spec() -> bool {
        true
    }

    open spec fn try_from_spec(value: u8) -> Result<Self, ()> {
        match PeerBandwidthLimitType::spec_from_u8(value) {
            Some(t) => Ok(t),
            None => Err(()),
        }
    }
}

/// A limit on the peer's output bandwidth.
#[derive(Debug, Clone, Copy, PartialEq, Eq, Structural)]
pub struct SetPeerBandwidth {
    pub size: u32,
    pub limit_type: PeerBandwidthLimitType,
}

/// A new maximum chunk size.
#[derive(Debug, Clone, Copy, PartialEq, Eq, Structural)]
pub struct SetChunkSize {
    pub size: u32,
}

/// The smallest chunk size a peer may announce.
pub const MIN_CHUNK_SIZE: u32 = 1;

/// The largest chunk size a peer may announce.
pub const MAX_CHUNK_SIZE: u32 = 0x7FFF_FFFF;

/// The chunk size in force until a peer announces another.
pub const DEFAULT_CHUNK_SIZE: u32 = 128;

/// A whole message, as the chunk layer takes and gives it.
#[derive(Debug, PartialEq)]
pub struct RTMPMessage {
    pub timestamp: u32,
    pub message_type_id: MessageTypeId,
    pub message_stream_id: u32,
    pub chunk_stream_id: u32,
    pub payload: Vec<u8>,
}

/// A message with its payload as a sequence.
pub struct RTMPMessageView {
    pub timestamp: u32,
    pub message_type_id: MessageTypeId,
    pub message_stream_id: u32,
    pub chunk_stream_id: u32,
    pub payload: Seq<u8>,
}

impl View for RTMPMessage {
    type V = RTMPMessageView;

    open spec fn view(&self) -> RTMPMessageView {
        RTMPMessageView {
            timestamp: self.timestamp,
            message_type_id: self.message_type_id,
            message_stream_id: self.message_stream_id,
            chunk_stream_id: self.chunk_stream_id,
            payload: self.payload@,
        }
    }
}

/// A remote procedure call or the answer to one.
#[derive(Debug, PartialEq)]
pub struct AMFCommandMessage {
    /// The procedure that is called; `_result` or `_error` in an answer.
    pub procedure_name: String,
    /// Pairs an answer with its call; 0 where no answer is expected.
    pub transaction_id: u32,
    /// What the command carries about itself; `None` stands for null.
    pub command_object: Option<AmfValue>,
    /// Whatever else is passed along.
    pub optional_arguments: Vec<AmfValue>,
}

/// A command, its strings and lists as sequences.
pub struct AMFCommandMessageView {
    pub procedure_name: Seq<char>,
    pub transaction_id: u32,
    pub command_object: Option<AmfValueView>,
    pub optional_arguments: Seq<AmfValueView>,
}

impl View for AMFCommandMessage {
    type V = AMFCommandMessageView;

    open spec fn view(&self) -> AMFCommandMessageView {
        AMFCommandMessageView {
            procedure_name: self.procedure_name@,
            transaction_id: self.transaction_id,
            command_object: match self.command_object {
                Some(v) => Some(v@),
                None => None,
            },
            optional_arguments: spec_views(self.optional_arguments@),
        }
    }
}

impl AMFCommandMessageView {
    /// The values a command is made of, in the order they travel: the
    /// procedure name, the transaction id, the command object or null, then
    /// the optional arguments.
    pub open spec fn spec_values(self) -> Seq<AmfValueView> {
        seq![
            AmfValueView::String(self.procedure_name),
            AmfValueView::Number(spec_number_from_u32(self.transaction_id)),
            match self.command_object {
                Some(v) => v,
                None => AmfValueView::Null,
            },
        ] + self.optional_arguments
    }
}

/// A message, taken as what its type says it is.
#[derive(Debug, PartialEq)]
pub enum RTMPMessageType {
    SetChunkSize(SetChunkSize),
    Acknowledgement(Acknowledgement),
    UserControlMessage(UserControlMessage),
    WindowAcknowledgementSize(WindowAcknowledgementSize),
    SetPeerBandwidth(SetPeerBandwidth),
    AMF0Command(AMFCommandMessage),
    /// A message about the shared object that is registered under the name.
    AMF3SharedObject(String),
}

/// A typed message, its strings and lists as sequences.
pub enum RTMPMessageTypeView {
    SetChunkSize(SetChunkSize),
    Acknowledgement(Acknowledgement),
    UserControlMessage(UserControlMessage),
    WindowAcknowledgementSize(WindowAcknowledgementSize),
    SetPeerBandwidth(SetPeerBandwidth),
    AMF0Command(AMFCommandMessageView),
    AMF3SharedObject(Seq<char>),
}

impl View for RTMPMessageType {
    type V = RTMPMessageTypeView;

    open spec fn view(&self) -> RTMPMessageTypeView {
        match self {
            RTMPMessageType::SetChunkSize(m) => RTMPMessageTypeView::SetChunkSize(*m),
            RTMPMessageType::Acknowledgement(m) => RTMPMessageTypeView::Acknowledgement(*m),
            RTMPMessageType::UserControlMessage(m) => RTMPMessageTypeView::UserControlMessage(*m),
            RTMPMessageType::WindowAcknowledgementSize(m) => RTMPMessageTypeView::WindowAcknowledgementSize(
                *m,
            ),
            RTMPMessageType::SetPeerBandwidth(m) => RTMPMessageTypeView::SetPeerBandwidth(*m),
            RTMPMessageType::AMF0Command(m) => RTMPMessageTypeView::AMF0Command(m@),
            RTMPMessageType::AMF3SharedObject(name) => RTMPMessageTypeView::AMF3SharedObject(name@),
        }
    }
}

impl RTMPMessageTypeView {
    /// The type id that the message travels under.
    pub open spec fn spec_message_type_id(self) -> MessageTypeId {
        match self {
            RTMPMessageTypeView::SetChunkSize(_) => MessageTypeId::SetChunkSize,
            RTMPMessageTypeView::Acknowledgement(_) => MessageTypeId::Acknowledgement,
            RTMPMessageTypeView::UserControlMessage(_) => MessageTypeId::UserControlMessage,
            RTMPMessageTypeView::WindowAcknowledgementSize(_) => MessageTypeId::WindowAcknowledgementSize,
            RTMPMessageTypeView::SetPeerBandwidth(_) => MessageTypeId::SetPeerBandwidth,
            RTMPMessageTypeView::AMF0Command(_) => MessageTypeId::CommandAMF0,
            RTMPMessageTypeView::AMF3SharedObject(_) => MessageTypeId::SharedObjectAMF3,
        }
    }
}

} // verus!
