//! Decoding of user control events.

use crate::errors::Error;
use crate::net_connection::packets::UserControlMessage;
use crate::utils::bytes::{
    be_u16, be_u32, lemma_u16_be_of_prefix, lemma_u32_be_of_prefix, spec_u16_be, spec_u32_be,
    u16_be_bytes, u32_be_bytes, RTMPResult,
};
use vstd::prelude::*;

verus! {

/// What reading a user control payload gives: the event and the bytes left
/// over, or the reason there is none.
pub open spec fn spec_read_user_control(s: Seq<u8>) -> Result<(Seq<u8>, UserControlMessage), Error> {
    if s.len() < 2 {
        Err(Error::Incomplete { needed: 2 })
    } else {
        let event_type = spec_u16_be(s);
        let body = s.skip(2);
        if event_type == 5 || event_type > 7 {
            Err(Error::UnknownUserControlEvent(event_type as u16))
        } else if body.len() < 4 || (event_type == 3 && body.len() < 8) {
            Err(Error::Incomplete { needed: 4 })
        } else {
            let first = spec_u32_be(body) as u32;
            if event_type == 0 {
                Ok((body.skip(4), UserControlMessage::StreamBegin { stream_id: first }))
            } else if event_type == 1 {
                Ok((body.skip(4), UserControlMessage::StreamEOF { stream_id: first }))
            } else if event_type == 2 {
                Ok((body.skip(4), UserControlMessage::StreamDry { stream_id: first }))
            } else if event_type == 3 {
                Ok(
                    (
                        body.skip(8),
                        UserControlMessage::SetBufferLength {
                            stream_id: first,
                            buffer_length: spec_u32_be(body.skip(4)) as u32,
                        },
                    ),
                )
            } else if event_type == 4 {
                Ok((body.skip(4), UserControlMessage::StreamIsRecorded { stream_id: first }))
            } else if event_type == 6 {
                Ok((body.skip(4), UserControlMessage::PingRequest { timestamp: first }))
            } else {
                Ok((body.skip(4), UserControlMessage::PingResponse { timestamp: first }))
            }
        }
    }
}

/// Every event is read back from its own payload, with nothing left over.
pub proof fn lemma_user_control_roundtrip(message: UserControlMessage)
    ensures
        spec_read_user_control(message.spec_bytes()) == Ok::<(Seq<u8>, UserControlMessage), Error>(
            (Seq::empty(), message),
        ),
{
    let s = message.spec_bytes();
    assert(s.take(2) =~= u16_be_bytes(message.spec_event_type()));
    lemma_u16_be_of_prefix(message.spec_event_type(), s);
    let body = s.skip(2);
    assert(body =~= message.spec_body());
    match message {
        UserControlMessage::SetBufferLength { stream_id, buffer_length } => {
            assert(body.take(4) =~= u32_be_bytes(stream_id));
            lemma_u32_be_of_prefix(stream_id, body);
            assert(body.skip(4).take(4) =~= u32_be_bytes(buffer_length));
            lemma_u32_be_of_prefix(buffer_length, body.skip(4));
            assert(body.skip(8) =~= Seq::<u8>::empty());
        },
        UserControlMessage::StreamBegin { stream_id } => {
            assert(body.take(4) =~= u32_be_bytes(stream_id));
            lemma_u32_be_of_prefix(stream_id, body);
            assert(body.skip(4) =~= Seq::<u8>::empty());
        },
        UserControlMessage::StreamEOF { stream_id } => {
            assert(body.take(4) =~= u32_be_bytes(stream_id));
            lemma_u32_be_of_prefix(stream_id, body);
            assert(body.skip(4) =~= Seq::<u8>::empty());
        },
        UserControlMessage::StreamDry { stream_id } => {
            assert(body.take(4) =~= u32_be_bytes(stream_id));
            lemma_u32_be_of_prefix(stream_id, body);
            assert(body.skip(4) =~= Seq::<u8>::empty());
        },
        UserControlMessage::StreamIsRecorded { stream_id } => {
            assert(body.take(4) =~= u32_be_bytes(stream_id));
            lemma_u32_be_of_prefix(stream_id, body);
            assert(body.skip(4) =~= Seq::<u8>::empty());
        },
        UserControlMessage::PingRequest { timestamp } => {
            assert(body.take(4) =~= u32_be_bytes(timestamp));
            lemma_u32_be_of_prefix(timestamp, body);
            assert(body.skip(4) =~= Seq::<u8>::empty());
        },
        UserControlMessage::PingResponse { timestamp } => {
            assert(body.take(4) =~= u32_be_bytes(timestamp));
            lemma_u32_be_of_prefix(timestamp, body);
            assert(body.skip(4) =~= Seq::<u8>::empty());
        },
    }
}

/// Reads user control events from message payloads.
pub struct UserControlMessageReader {}

impl UserControlMessageReader {
    pub fn read_stream_begin<'a>(payload: &'a [u8]) -> (r: RTMPResult<'a, UserControlMessage>)
        ensures
            match r {
                Ok((rest, m)) => payload@.len() >= 4 && rest@ == payload@.skip(4) && m == (
                UserControlMessage::StreamBegin { stream_id: spec_u32_be(payload@) as u32 }),
                Err(e) => payload@.len() < 4 && e == (Error::Incomplete { needed: 4 }),
            },
    {
        let (i, stream_id) = be_u32(payload)?;
        Ok((i, UserControlMessage::StreamBegin { stream_id }))
    }

    pub fn read_stream_eof<'a>(payload: &'a [u8]) -> (r: RTMPResult<'a, UserControlMessage>)
        ensures
            match r {
                Ok((rest, m)) => payload@.len() >= 4 && rest@ == payload@.skip(4) && m == (
                UserControlMessage::StreamEOF { stream_id: spec_u32_be(payload@) as u32 }),
                Err(e) => payload@.len() < 4 && e == (Error::Incomplete { needed: 4 }),
            },
    {
        let (i, stream_id) = be_u32(payload)?;
        Ok((i, UserControlMessage::StreamEOF { stream_id }))
    }

    pub fn read_stream_dry<'a>(payload: &'a [u8]) -> (r: RTMPResult<'a, UserControlMessage>)
        ensures
            match r {
                Ok((rest, m)) => payload@.len() >= 4 && rest@ == payload@.skip(4) && m == (
                UserControlMessage::StreamDry { stream_id: spec_u32_be(payload@) as u32 }),
                Err(e) => payload@.len() < 4 && e == (Error::Incomplete { needed: 4 }),
            },
    {
        let (i, stream_id) = be_u32(payload)?;
        Ok((i, UserControlMessage::StreamDry { stream_id }))
    }

    pub fn read_set_buffer_length<'a>(payload: &'a [u8]) -> (r: RTMPResult<
        'a,
        UserControlMessage,
    >)
        ensures
            match r {
                Ok((rest, m)) => payload@.len() >= 8 && rest@ == payload@.skip(8) && m == (
                UserControlMessage::SetBufferLength {
                    stream_id: spec_u32_be(payload@) as u32,
                    buffer_length: spec_u32_be(payload@.skip(4)) as u32,
                }),
                Err(e) => payload@.len() < 8 && e == (Error::Incomplete { needed: 4 }),
            },
    {
        let (i, stream_id) = be_u32(payload)?;
        let (i, buffer_length) = be_u32(i)?;
        assert(i@ =~= payload@.skip(8));
        Ok((i, UserControlMessage::SetBufferLength { stream_id, buffer_length }))
    }

    pub fn read_stream_is_recorded<'a>(payload: &'a [u8]) -> (r: RTMPResult<
        'a,
        UserControlMessage,
    >)
        ensures
            match r {
                Ok((rest, m)) => payload@.len() >= 4 && rest@ == payload@.skip(4) && m == (
                UserControlMessage::StreamIsRecorded { stream_id: spec_u32_be(payload@) as u32 }),
                Err(e) => payload@.len() < 4 && e == (Error::Incomplete { needed: 4 }),
            },
    {
        let (i, stream_id) = be_u32(payload)?;
        Ok((i, UserControlMessage::StreamIsRecorded { stream_id }))
    }

    pub fn read_ping_request<'a>(payload: &'a [u8]) -> (r: RTMPResult<'a, UserControlMessage>)
        ensures
            match r {
                Ok((rest, m)) => payload@.len() >= 4 && rest@ == payload@.skip(4) && m == (
                UserControlMessage::PingRequest { timestamp: spec_u32_be(payload@) as u32 }),
                Err(e) => payload@.len() < 4 && e == (Error::Incomplete { needed: 4 }),
            },
    {
        let (i, timestamp) = be_u32(payload)?;
        Ok((i, UserControlMessage::PingRequest { timestamp }))
    }

    pub fn read_ping_response<'a>(payload: &'a [u8]) -> (r: RTMPResult<'a, UserControlMessage>)
        ensures
            match r {
                Ok((rest, m)) => payload@.len() >= 4 && rest@ == payload@.skip(4) && m == (
                UserControlMessage::PingResponse { timestamp: spec_u32_be(payload@) as u32 }),
                Err(e) => payload@.len() < 4 && e == (Error::Incomplete { needed: 4 }),
            },
    {
        let (i, timestamp) = be_u32(payload)?;
        Ok((i, UserControlMessage::PingResponse { timestamp }))
    }

    /// Reads the event that a user control payload holds: a 16-bit tag, then
    /// the body that the tag calls for.
    pub fn read<'a>(payload: &'a [u8]) -> (r: RTMPResult<'a, UserControlMessage>)
        ensures
            match r {
                Ok((rest, m)) => spec_read_user_control(payload@) == Ok::<
                    (Seq<u8>, UserControlMessage),
                    Error,
                >((rest@, m)),
                Err(e) => spec_read_user_control(payload@) == Err::<
                    (Seq<u8>, UserControlMessage),
                    Error,
                >(e),
            },
    {
        let (i, event_type) = be_u16(payload)?;
        let (i, user_control_message) = match event_type {
            0 => UserControlMessageReader::read_stream_begin(i)?,
            1 => UserControlMessageReader::read_stream_eof(i)?,
            2 => UserControlMessageReader::read_stream_dry(i)?,
            3 => UserControlMessageReader::read_set_buffer_length(i)?,
            4 => UserControlMessageReader::read_stream_is_recorded(i)?,
            6 => UserControlMessageReader::read_ping_request(i)?,
            7 => UserControlMessageReader::read_ping_response(i)?,
            _ => { return Err(Error::UnknownUserControlEvent(event_type)); },
        };
        assert(payload@.len() >= 6 ==> payload@.skip(2).skip(4) =~= payload@.skip(6));
        assert(payload@.len() >= 10 ==> payload@.skip(2).skip(8) =~= payload@.skip(10));
        Ok((i, user_control_message))
    }
}

} // verus!
