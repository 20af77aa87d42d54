//! Decoding of message payloads into typed messages.

use crate::amf::number::{number_to_u32, spec_number_to_u32};
use crate::amf::{decode_values, spec_decode_values, spec_views, AmfValue, AmfValueView};
use crate::chunk::packets::MessageTypeId;
use crate::chunk::reader::{spec_read_message, MessageStep, RTMPDechunker};
use crate::context::{spec_position, NetConnectionContext};
use crate::errors::Error;
use crate::net_connection::packets::{
    AMFCommandMessage, AMFCommandMessageView, Acknowledgement, RTMPMessage, RTMPMessageType,
    RTMPMessageTypeView, RTMPMessageView, PeerBandwidthLimitType, SetChunkSize, SetPeerBandwidth,
    WindowAcknowledgementSize, MAX_CHUNK_SIZE, MIN_CHUNK_SIZE,
};
use crate::net_connection::transaction_manager::TransactionResult;
use crate::net_connection::user_control_messages::reader::{
    spec_read_user_control, UserControlMessageReader,
};
use crate::shared_object::reader::{
    spec_read_shared_object, SharedObjectMessageView, SharedObjectReader,
};
use crate::transport::Transport;
use crate::utils::bytes::{be_u32, be_u8, spec_u32_be, RTMPResult};
use vstd::prelude::*;

verus! {

/// The command that a list of values makes, or the reason it makes none:
/// the first value must be a string, the second a number, and a third must
/// follow. A null in third place is no command object; everything behind
/// the third value is an optional argument.
pub open spec fn spec_command_from_values(values: Seq<AmfValueView>) -> Result<
    AMFCommandMessageView,
    Error,
> {
    if values.len() < 3 {
        Err(Error::InvalidCommand)
    } else {
        match (values[0], values[1]) {
            (AmfValueView::String(name), AmfValueView::Number(bits)) => Ok(
                AMFCommandMessageView {
                    procedure_name: name,
                    transaction_id: spec_number_to_u32(bits),
                    command_object: if values[2] is Null {
                        None
                    } else {
                        Some(values[2])
                    },
                    optional_arguments: values.skip(3),
                },
            ),
            _ => Err(Error::InvalidCommand),
        }
    }
}

/// What reading an AMF0 command payload gives: the values the payload
/// holds, taken as a command.
pub open spec fn spec_read_amf0_command(payload: Seq<u8>) -> Result<AMFCommandMessageView, Error> {
    match spec_decode_values(payload) {
        Some(values) => spec_command_from_values(values),
        None => Err(Error::AmfDecode),
    }
}

/// What a message is taken as before its object is looked up: the typed
/// message of a control message or a command, the parsed message of a
/// shared object.
pub enum Classified {
    Typed(RTMPMessageTypeView),
    SharedObject(SharedObjectMessageView),
}

/// What a message is, by its type id, or the reason it is nothing this
/// client handles: a payload that does not hold what the type calls for,
/// or a type that the client has no use for.
pub open spec fn spec_classify(message: RTMPMessageView) -> Result<Classified, Error> {
    let payload = message.payload;
    match message.message_type_id {
        MessageTypeId::SetChunkSize => {
            if payload.len() < 4 {
                Err(Error::Incomplete { needed: 4 })
            } else if !(MIN_CHUNK_SIZE <= spec_u32_be(payload) <= MAX_CHUNK_SIZE) {
                Err(Error::InvalidChunkSize(spec_u32_be(payload) as u32))
            } else {
                Ok(
                    Classified::Typed(
                        RTMPMessageTypeView::SetChunkSize(
                            SetChunkSize { size: spec_u32_be(payload) as u32 },
                        ),
                    ),
                )
            }
        },
        MessageTypeId::Acknowledgement => {
            if payload.len() < 4 {
                Err(Error::Incomplete { needed: 4 })
            } else {
                Ok(
                    Classified::Typed(
                        RTMPMessageTypeView::Acknowledgement(
                            Acknowledgement { sequence_number: spec_u32_be(payload) as u32 },
                        ),
                    ),
                )
            }
        },
        MessageTypeId::WindowAcknowledgementSize => {
            if payload.len() < 4 {
                Err(Error::Incomplete { needed: 4 })
            } else {
                Ok(
                    Classified::Typed(
                        RTMPMessageTypeView::WindowAcknowledgementSize(
                            WindowAcknowledgementSize { size: spec_u32_be(payload) as u32 },
                        ),
                    ),
                )
            }
        },
        MessageTypeId::SetPeerBandwidth => {
            if payload.len() < 4 {
                Err(Error::Incomplete { needed: 4 })
            } else if payload.len() < 5 {
                Err(Error::Incomplete { needed: 1 })
            } else {
                match PeerBandwidthLimitType::spec_from_u8(payload[4]) {
                    Some(limit_type) => Ok(
                        Classified::Typed(
                            RTMPMessageTypeView::SetPeerBandwidth(
                                SetPeerBandwidth { size: spec_u32_be(payload) as u32, limit_type },
                            ),
                        ),
                    ),
                    None => Err(Error::InvalidLimitType(payload[4])),
                }
            }
        },
        MessageTypeId::UserControlMessage => match spec_read_user_control(payload) {
            Ok((_, event)) => Ok(Classified::Typed(RTMPMessageTypeView::UserControlMessage(event))),
            Err(e) => Err(e),
        },
        MessageTypeId::CommandAMF0 => match spec_read_amf0_command(payload) {
            Ok(command) => Ok(Classified::Typed(RTMPMessageTypeView::AMF0Command(command))),
            Err(e) => Err(e),
        },
        MessageTypeId::SharedObjectAMF0 => match spec_read_shared_object(payload) {
            Ok(shared) => Ok(Classified::SharedObject(shared)),
            Err(e) => Err(e),
        },
        other => Err(Error::UnhandledMessageType(other.spec_to_u8())),
    }
}

/// Turns message payloads into typed messages.
#[derive(Debug)]
pub struct RTMPReader {}

impl RTMPReader {
    /// Reads the window size: four bytes, big-endian.
    pub fn read_window_acknowledgement_size<'a>(payload: &'a [u8]) -> (r: RTMPResult<
        'a,
        WindowAcknowledgementSize,
    >)
        ensures
            match r {
                Ok((rest, m)) => payload@.len() >= 4 && rest@ == payload@.skip(4) && m.size
                    == spec_u32_be(payload@),
                Err(e) => payload@.len() < 4 && e == (Error::Incomplete { needed: 4 }),
            },
    {
        let (i, size) = be_u32(payload)?;
        Ok((i, WindowAcknowledgementSize { size }))
    }

    /// Reads the number of bytes the peer has received: four bytes, big-endian.
    pub fn read_acknowledgement<'a>(payload: &'a [u8]) -> (r: RTMPResult<'a, Acknowledgement>)
        ensures
            match r {
                Ok((rest, m)) => payload@.len() >= 4 && rest@ == payload@.skip(4)
                    && m.sequence_number == spec_u32_be(payload@),
                Err(e) => payload@.len() < 4 && e == (Error::Incomplete { needed: 4 }),
            },
    {
        let (i, sequence_number) = be_u32(payload)?;
        Ok((i, Acknowledgement { sequence_number }))
    }

    /// Reads a bandwidth limit: the size, four bytes big-endian, then the
    /// limit type, one byte that must be 0, 1 or 2.
    pub fn read_set_peer_bandwidth<'a>(payload: &'a [u8]) -> (r: RTMPResult<'a, SetPeerBandwidth>)
        ensures
            match r {
                Ok((rest, m)) => payload@.len() >= 5 && rest@ == payload@.skip(5) && m.size
                    == spec_u32_be(payload@) && PeerBandwidthLimitType::spec_from_u8(payload@[4])
                    == Some(m.limit_type),
                Err(e) => if payload@.len() < 4 {
                    e == (Error::Incomplete { needed: 4 })
                } else if payload@.len() < 5 {
                    e == (Error::Incomplete { needed: 1 })
                } else {
                    PeerBandwidthLimitType::spec_from_u8(payload@[4]) is None && e
                        == Error::InvalidLimitType(payload@[4])
                },
            },
    {
        let (i, size) = be_u32(payload)?;
        let (i, bandwidth_limit_byte) = be_u8(i)?;
        assert(i@ =~= payload@.skip(5));
        match PeerBandwidthLimitType::from_u8(bandwidth_limit_byte) {
            Some(limit_type) => Ok((i, SetPeerBandwidth { size, limit_type })),
            None => Err(Error::InvalidLimitType(bandwidth_limit_byte)),
        }
    }

    /// Reads a chunk size: four bytes, big-endian, between 1 and 2^31 - 1.
    pub fn read_set_chunk_size<'a>(payload: &'a [u8]) -> (r: RTMPResult<'a, SetChunkSize>)
        ensures
            match r {
                Ok((rest, m)) => payload@.len() >= 4 && rest@ == payload@.skip(4) && m.size
                    == spec_u32_be(payload@) && MIN_CHUNK_SIZE <= m.size <= MAX_CHUNK_SIZE,
                Err(e) => if payload@.len() < 4 {
                    e == (Error::Incomplete { needed: 4 })
                } else {
                    !(MIN_CHUNK_SIZE <= spec_u32_be(payload@) <= MAX_CHUNK_SIZE) && e
                        == Error::InvalidChunkSize(spec_u32_be(payload@) as u32)
                },
            },
    {
        let (i, size) = be_u32(payload)?;
        if size < MIN_CHUNK_SIZE || size > MAX_CHUNK_SIZE {
            return Err(Error::InvalidChunkSize(size));
        }
        Ok((i, SetChunkSize { size }))
    }

    /// Takes a list of values as a command: procedure name, transaction id,
    /// command object, optional arguments.
    pub fn command_from_values(values: Vec<AmfValue>) -> (r: Result<AMFCommandMessage, Error>)
        ensures
            match r {
                Ok(command) => spec_command_from_values(spec_views(values@)) == Ok::<
                    AMFCommandMessageView,
                    Error,
                >(command@),
                Err(e) => spec_command_from_values(spec_views(values@)) == Err::<
                    AMFCommandMessageView,
                    Error,
                >(e),
            },
    {
        if values.len() < 3 {
            return Err(Error::InvalidCommand);
        }
        let ghost all = spec_views(values@);
        let mut values = values;
        let mut optional_arguments = values.split_off(3);
        assert(spec_views(optional_arguments@) =~= all.skip(3));
        assert(spec_views(values@) =~= all.take(3));
        let third = values.pop();
        let second = values.pop();
        let first = values.pop();
        match (first, second, third) {
            (
                Some(AmfValue::String(procedure_name)),
                Some(AmfValue::Number(bits)),
                Some(command_object),
            ) => {
                let command_object = match command_object {
                    AmfValue::Null => None,
                    other => Some(other),
                };
                Ok(
                    AMFCommandMessage {
                        procedure_name,
                        transaction_id: number_to_u32(bits),
                        command_object,
                        optional_arguments,
                    },
                )
            },
            _ => Err(Error::InvalidCommand),
        }
    }

    /// Reads a command: the AMF0 values of the payload, one after the
    /// other until it is used up, taken as a command.
    pub fn read_amf0_command(payload: Vec<u8>) -> (r: Result<AMFCommandMessage, Error>)
        ensures
            match r {
                Ok(command) => spec_read_amf0_command(payload@) == Ok::<
                    AMFCommandMessageView,
                    Error,
                >(command@),
                Err(e) => spec_read_amf0_command(payload@) == Err::<AMFCommandMessageView, Error>(
                    e,
                ),
            },
    {
        let values = decode_values(payload.as_slice())?;
        RTMPReader::command_from_values(values)
    }

    /// Takes a message as what its type id says it is. A message about a
    /// shared object is handed to the object that it names.
    pub fn classify<T: Transport, F: Fn(TransactionResult, AmfValue, Vec<AmfValue>)>(
        message: RTMPMessage,
        context: &mut NetConnectionContext<T, F>,
    ) -> (r: Result<RTMPMessageType, Error>)
        requires
            old(context).wf(),
        ensures
            final(context).wf(),
            final(context).spec_same_io(old(context)),
            spec_classified(message@, old(context), final(context), r),
    {
        match message.message_type_id {
            MessageTypeId::WindowAcknowledgementSize => {
                let (_, window_acknowledgement_size) =
                    RTMPReader::read_window_acknowledgement_size(message.payload.as_slice())?;
                Ok(RTMPMessageType::WindowAcknowledgementSize(window_acknowledgement_size))
            },
            MessageTypeId::Acknowledgement => {
                let (_, acknowledgement) = RTMPReader::read_acknowledgement(
                    message.payload.as_slice(),
                )?;
                Ok(RTMPMessageType::Acknowledgement(acknowledgement))
            },
            MessageTypeId::SetPeerBandwidth => {
                let (_, set_peer_bandwidth) = RTMPReader::read_set_peer_bandwidth(
                    message.payload.as_slice(),
                )?;
                Ok(RTMPMessageType::SetPeerBandwidth(set_peer_bandwidth))
            },
            MessageTypeId::UserControlMessage => {
                let (_, user_control_message) = UserControlMessageReader::read(
                    message.payload.as_slice(),
                )?;
                Ok(RTMPMessageType::UserControlMessage(user_control_message))
            },
            MessageTypeId::SetChunkSize => {
                let (_, chunk_size) = RTMPReader::read_set_chunk_size(message.payload.as_slice())?;
                Ok(RTMPMessageType::SetChunkSize(chunk_size))
            },
            MessageTypeId::CommandAMF0 => {
                let command = RTMPReader::read_amf0_command(message.payload)?;
                Ok(RTMPMessageType::AMF0Command(command))
            },
            MessageTypeId::SharedObjectAMF0 => {
                let name = SharedObjectReader::new().read(context, message.payload.as_slice())?;
                Ok(RTMPMessageType::AMF3SharedObject(name))
            },
            other => Err(Error::UnhandledMessageType(other.to_u8())),
        }
    }

    /// Reads the next message from the transport and takes it as what its
    /// type id says it is.
    pub fn read<T: Transport, F: Fn(TransactionResult, AmfValue, Vec<AmfValue>)>(
        context: &mut NetConnectionContext<T, F>,
    ) -> (r: Result<RTMPMessageType, Error>)
        requires
            old(context).wf(),
        ensures
            final(context).wf(),
            final(context).spec_read_only(old(context)),
            final(context).received@ == old(context).received@ + final(context).spec_read_since(
                old(context),
            ),
            (r matches Err(e) && e is Io && final(context).shared_objects
                == old(context).shared_objects) || ({
                let step = spec_read_message(
                    final(context).spec_read_since(old(context)),
                    old(context).chunk_size,
                    old(context).spec_streams(),
                );
                match step {
                    MessageStep::Read { consumed, message, streams } => {
                        &&& consumed == final(context).spec_read_since(old(context)).len()
                        &&& streams == final(context).spec_streams()
                        &&& spec_classified(message, old(context), final(context), r)
                    },
                    MessageStep::Invalid(fault) => r matches Err(e) && e == fault
                        && final(context).shared_objects == old(context).shared_objects,
                    MessageStep::Short => false,
                }
            }),
    {
        let message = match RTMPDechunker::read_chunks(context) {
            Ok(m) => m,
            Err(e) => { return Err(e); },
        };
        let ghost middle = *context;
        let r = RTMPReader::classify(message, context);
        proof {
            assert(context.spec_streams() =~= middle.spec_streams());
        }
        r
    }
}

/// Whether a result is what taking a message as what its type id says it
/// is gives, and the registry of shared objects what that leaves it as. A
/// message about a shared object needs the object to be registered; its
/// events are handed to the object, and the result names the object.
/// Every other message leaves the registry as it is.
pub open spec fn spec_classified<T: Transport, F: Fn(TransactionResult, AmfValue, Vec<AmfValue>)>(
    message: RTMPMessageView,
    before: &NetConnectionContext<T, F>,
    after: &NetConnectionContext<T, F>,
    r: Result<RTMPMessageType, Error>,
) -> bool {
    match spec_classify(message) {
        Err(fault) => r matches Err(e) && e == fault && after.shared_objects
            == before.shared_objects,
        Ok(Classified::Typed(typed)) => r matches Ok(t) && t@ == typed && after.shared_objects
            == before.shared_objects,
        Ok(Classified::SharedObject(shared)) => if before.spec_has_shared_object(shared.name) {
            let at = spec_position(before.shared_objects@, shared.name);
            &&& r matches Ok(t) && t@ == RTMPMessageTypeView::AMF3SharedObject(shared.name)
            &&& after.shared_objects@.len() == before.shared_objects@.len()
            &&& forall|i: int|
                0 <= i < before.shared_objects@.len() && i != at ==> after.shared_objects@[i]
                    == before.shared_objects@[i]
            &&& after.shared_objects@[at].spec_received_from(&before.shared_objects@[at], shared)
        } else {
            r matches Err(e) && e == Error::UnknownSharedObject && after.shared_objects
                == before.shared_objects
        },
    }
}

} // verus!
