//! Encoding of typed messages into message payloads.

use crate::amf::number::number_from_u32;
use crate::amf::{encode_values, spec_encode_values, spec_views, AmfValue};
use crate::chunk::packets::MessageTypeId;
use crate::chunk::packets::ChunkImportance;
use crate::chunk::writer::{spec_message_bytes, RTMPChunker};
use crate::context::{spec_position, NetConnectionContext};
use crate::errors::Error;
use crate::net_connection::packets::{
    AMFCommandMessage, RTMPMessage, RTMPMessageType, RTMPMessageTypeView, RTMPMessageView,
    UserControlMessage,
};
use crate::net_connection::transaction_manager::TransactionResult;
use crate::shared_object::writer::{spec_pending_message, SharedObjectWriter};
use crate::transport::Transport;
use crate::utils::bytes::{put_u16_be, put_u32_be, u32_be_bytes};
use vstd::prelude::*;

verus! {

/// The payload of a typed message, or the reason it has none: a value
/// without an encoding, a string too long for its length field, a shared
/// object that is not registered.
pub open spec fn spec_payload<T: Transport, F: Fn(TransactionResult, AmfValue, Vec<AmfValue>)>(
    typed: RTMPMessageTypeView,
    context: &NetConnectionContext<T, F>,
) -> Result<Seq<u8>, Error> {
    match typed {
        RTMPMessageTypeView::SetChunkSize(m) => Ok(u32_be_bytes(m.size)),
        RTMPMessageTypeView::Acknowledgement(m) => Ok(u32_be_bytes(m.sequence_number)),
        RTMPMessageTypeView::WindowAcknowledgementSize(m) => Ok(u32_be_bytes(m.size)),
        RTMPMessageTypeView::SetPeerBandwidth(m) => Ok(
            u32_be_bytes(m.size) + seq![m.limit_type.spec_to_u8()],
        ),
        RTMPMessageTypeView::UserControlMessage(event) => Ok(event.spec_bytes()),
        RTMPMessageTypeView::AMF0Command(command) => match spec_encode_values(
            command.spec_values(),
        ) {
            Some(bytes) => Ok(bytes),
            None => Err(Error::AmfEncode),
        },
        RTMPMessageTypeView::AMF3SharedObject(name) => if context.spec_has_shared_object(name) {
            spec_pending_message(
                &context.shared_objects@[spec_position(context.shared_objects@, name)],
            )
        } else {
            Err(Error::UnknownSharedObject)
        },
    }
}

/// The message that a typed message travels as: at time 0, on message
/// stream 0, under the type id of its kind, on the chunk stream that
/// messages of that type are sent on.
pub open spec fn spec_outbound(typed: RTMPMessageTypeView, payload: Seq<u8>) -> RTMPMessageView {
    RTMPMessageView {
        timestamp: 0,
        message_type_id: typed.spec_message_type_id(),
        message_stream_id: 0,
        chunk_stream_id: ChunkImportance::spec_for_message_type(
            typed.spec_message_type_id(),
        ).spec_to_u32(),
        payload,
    }
}

/// Whether what a context has sent between two of its states is a typed
/// message, and `r` the result of sending it: where the message has no
/// payload or one of 2^24 bytes or more, or where the transport fails,
/// nothing is put on record as sent.
pub open spec fn spec_wrote<T: Transport, F: Fn(TransactionResult, AmfValue, Vec<AmfValue>)>(
    typed: RTMPMessageTypeView,
    before: &NetConnectionContext<T, F>,
    after: &NetConnectionContext<T, F>,
    r: Result<(), Error>,
) -> bool {
    match spec_payload(typed, before) {
        Err(fault) => r matches Err(e) && e == fault && after.sent@ == before.sent@,
        Ok(bytes) => if bytes.len() > 0xFF_FFFF {
            r matches Err(e) && e == Error::MessageTooLong && after.sent@ == before.sent@
        } else {
            match r {
                Ok(()) => after.sent@ == before.sent@ + spec_message_bytes(
                    spec_outbound(typed, bytes),
                    before.outbound_chunk_size,
                ),
                Err(e) => e is Io && after.sent@ == before.sent@,
            }
        },
    }
}

/// Turns typed messages into message payloads.
#[derive(Debug)]
pub struct RTMPWriter {}

impl RTMPWriter {
    /// Appends a command to a payload: the AMF0 encodings of its procedure
    /// name, its transaction id, its command object (null where it has
    /// none) and its optional arguments. Where a value has no encoding,
    /// nothing is appended.
    pub fn write_amf0_command(command: AMFCommandMessage, payload_vector: &mut Vec<u8>) -> (r:
        Result<(), Error>)
        ensures
            match r {
                Ok(()) => spec_encode_values(command@.spec_values()) matches Some(bytes)
                    && final(payload_vector)@ == old(payload_vector)@ + bytes,
                Err(e) => e == Error::AmfEncode && spec_encode_values(command@.spec_values())
                    is None && final(payload_vector)@ == old(payload_vector)@,
            },
    {
        let ghost view = command@;
        let mut values: Vec<AmfValue> = Vec::new();
        values.push(AmfValue::String(command.procedure_name));
        values.push(AmfValue::Number(number_from_u32(command.transaction_id)));
        values.push(
            match command.command_object {
                Some(command_object) => command_object,
                None => AmfValue::Null,
            },
        );
        let mut optional_arguments = command.optional_arguments;
        values.append(&mut optional_arguments);
        assert(spec_views(values@) =~= view.spec_values());
        encode_values(&values, payload_vector)
    }

    /// Appends a user control event to a payload: its tag, then its body.
    pub fn write_user_control_message(
        user_control_message: UserControlMessage,
        payload_vector: &mut Vec<u8>,
    ) -> (r: Result<(), Error>)
        ensures
            r is Ok,
            final(payload_vector)@ == old(payload_vector)@ + user_control_message.spec_bytes(),
    {
        put_u16_be(payload_vector, user_control_message.event_type());
        match user_control_message {
            UserControlMessage::StreamBegin { stream_id } => put_u32_be(payload_vector, stream_id),
            UserControlMessage::StreamEOF { stream_id } => put_u32_be(payload_vector, stream_id),
            UserControlMessage::StreamDry { stream_id } => put_u32_be(payload_vector, stream_id),
            UserControlMessage::SetBufferLength { stream_id, buffer_length } => {
                put_u32_be(payload_vector, stream_id);
                put_u32_be(payload_vector, buffer_length);
            },
            UserControlMessage::StreamIsRecorded { stream_id } => put_u32_be(
                payload_vector,
                stream_id,
            ),
            UserControlMessage::PingRequest { timestamp } => put_u32_be(payload_vector, timestamp),
            UserControlMessage::PingResponse { timestamp } => put_u32_be(payload_vector, timestamp),
        }
        assert(payload_vector@ =~= old(payload_vector)@ + user_control_message.spec_bytes());
        Ok(())
    }

    /// Sends a typed message: encodes its payload and hands it to the
    /// chunk layer under the type id of its kind, on the chunk stream that
    /// messages of that type are sent on. A message about a shared object
    /// carries the events of the object that wait to be sent; they stay
    /// pending.
    pub fn write<T: Transport, F: Fn(TransactionResult, AmfValue, Vec<AmfValue>)>(
        payload: RTMPMessageType,
        context: &mut NetConnectionContext<T, F>,
    ) -> (r: Result<(), Error>)
        requires
            old(context).wf(),
        ensures
            final(context).wf(),
            final(context).spec_same_session(old(context)),
            final(context).chunk_streams == old(context).chunk_streams,
            final(context).received@ == old(context).received@,
            final(context).bytes_received == old(context).bytes_received,
            spec_wrote(payload@, old(context), final(context), r),
    {
        let mut payload_vector: Vec<u8> = Vec::new();
        let ghost typed = payload@;
        let message_type_id = match payload {
            RTMPMessageType::AMF0Command(command) => {
                RTMPWriter::write_amf0_command(command, &mut payload_vector)?;
                MessageTypeId::CommandAMF0
            },
            RTMPMessageType::UserControlMessage(user_control_message) => {
                RTMPWriter::write_user_control_message(user_control_message, &mut payload_vector)?;
                MessageTypeId::UserControlMessage
            },
            RTMPMessageType::AMF3SharedObject(shared_object) => {
                SharedObjectWriter::new(shared_object).write(&mut payload_vector, context)?;
                MessageTypeId::SharedObjectAMF3
            },
            RTMPMessageType::SetChunkSize(m) => {
                put_u32_be(&mut payload_vector, m.size);
                MessageTypeId::SetChunkSize
            },
            RTMPMessageType::Acknowledgement(m) => {
                put_u32_be(&mut payload_vector, m.sequence_number);
                MessageTypeId::Acknowledgement
            },
            RTMPMessageType::WindowAcknowledgementSize(m) => {
                put_u32_be(&mut payload_vector, m.size);
                MessageTypeId::WindowAcknowledgementSize
            },
            RTMPMessageType::SetPeerBandwidth(m) => {
                put_u32_be(&mut payload_vector, m.size);
                payload_vector.push(m.limit_type.to_u8());
                MessageTypeId::SetPeerBandwidth
            },
        };
        proof {
            assert(spec_payload(typed, old(context)) == Ok::<Seq<u8>, Error>(payload_vector@)) by {
                assert(Seq::<u8>::empty() + payload_vector@ =~= payload_vector@);
                match typed {
                    RTMPMessageTypeView::SetPeerBandwidth(m) => {
                        assert(payload_vector@ =~= u32_be_bytes(m.size) + seq![
                            m.limit_type.spec_to_u8(),
                        ]);
                    },
                    _ => {},
                }
            }
        }
        let rtmp_message = RTMPMessage {
            timestamp: 0,
            message_type_id,
            chunk_stream_id: ChunkImportance::for_message_type(message_type_id).to_u32(),
            message_stream_id: 0,
            payload: payload_vector,
        };
        RTMPChunker::write_chunks(rtmp_message, context)
    }
}

} // verus!
