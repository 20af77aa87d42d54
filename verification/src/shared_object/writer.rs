//! Encoding of shared object messages.

use crate::amf::{encode_amf0, spec_encode_amf0, AmfValue};
use crate::context::{spec_position, NetConnectionContext};
use crate::errors::Error;
use crate::net_connection::transaction_manager::TransactionResult;
use crate::shared_object::{
    spec_event_views, SharedObject, SharedObjectEvent, SharedObjectEventView,
};
use crate::transport::Transport;
use crate::utils::bytes::{put_slice, put_string, put_u32_be, spec_string_bytes, u32_be_bytes};
use vstd::prelude::*;
use vstd::utf8::encode_utf8;

verus! {

/// What follows the tag and the length of an event on the wire, or the
/// reason the event cannot be written: a key, a code or a level of more
/// than 65535 bytes, or a value without an encoding.
pub open spec fn spec_event_body(event: SharedObjectEventView) -> Result<Seq<u8>, Error> {
    match event {
        SharedObjectEventView::RequestChange { key, value }
        | SharedObjectEventView::Change { key, value } => {
            if encode_utf8(key).len() > 0xFFFF {
                Err(Error::StringTooLong)
            } else {
                match spec_encode_amf0(value) {
                    Some(bytes) => Ok(spec_string_bytes(key) + bytes),
                    None => Err(Error::AmfEncode),
                }
            }
        },
        SharedObjectEventView::Remove { key } | SharedObjectEventView::RequestRemove { key } => {
            if encode_utf8(key).len() > 0xFFFF {
                Err(Error::StringTooLong)
            } else {
                Ok(spec_string_bytes(key))
            }
        },
        SharedObjectEventView::Status { code, level } => {
            if encode_utf8(code).len() > 0xFFFF || encode_utf8(level).len() > 0xFFFF {
                Err(Error::StringTooLong)
            } else {
                Ok(spec_string_bytes(code) + spec_string_bytes(level))
            }
        },
        _ => Ok(Seq::empty()),
    }
}

/// An event on the wire: its tag, the length of its body in 32 bits
/// big-endian, and its body. A body of 2^32 bytes or more cannot be
/// written.
pub open spec fn spec_event_bytes(event: SharedObjectEventView) -> Result<Seq<u8>, Error> {
    match spec_event_body(event) {
        Ok(body) => if body.len() > u32::MAX {
            Err(Error::MessageTooLong)
        } else {
            Ok(seq![event.spec_type()] + u32_be_bytes(body.len() as u32) + body)
        },
        Err(e) => Err(e),
    }
}

/// A run of events on the wire, one behind the other, or the reason the
/// first of them that cannot be written cannot.
pub open spec fn spec_events_bytes(events: Seq<SharedObjectEventView>) -> Result<Seq<u8>, Error>
    decreases events.len(),
{
    if events.len() == 0 {
        Ok(Seq::empty())
    } else {
        match spec_event_bytes(events[0]) {
            Ok(first) => match spec_events_bytes(events.skip(1)) {
                Ok(more) => Ok(first + more),
                Err(e) => Err(e),
            },
            Err(e) => Err(e),
        }
    }
}

/// The persistence flag of a shared object message.
pub open spec fn spec_persistence_flag(persistent: bool) -> u32 {
    if persistent {
        2
    } else {
        0
    }
}

/// A shared object message in its AMF0 form: the name, the version, the
/// persistence flag, four zero bytes, and the events.
pub open spec fn spec_amf0_shared_object_bytes(
    name: Seq<char>,
    version: u32,
    persistent: bool,
    events: Seq<SharedObjectEventView>,
) -> Result<Seq<u8>, Error> {
    if encode_utf8(name).len() > 0xFFFF {
        Err(Error::StringTooLong)
    } else {
        match spec_events_bytes(events) {
            Ok(bytes) => Ok(
                spec_string_bytes(name) + u32_be_bytes(version) + u32_be_bytes(
                    spec_persistence_flag(persistent),
                ) + u32_be_bytes(0) + bytes,
            ),
            Err(e) => Err(e),
        }
    }
}

/// A shared object message in its AMF3 form: a zero byte, then the AMF0
/// form.
pub open spec fn spec_amf3_shared_object_bytes(
    name: Seq<char>,
    version: u32,
    persistent: bool,
    events: Seq<SharedObjectEventView>,
) -> Result<Seq<u8>, Error> {
    match spec_amf0_shared_object_bytes(name, version, persistent, events) {
        Ok(bytes) => Ok(seq![0u8] + bytes),
        Err(e) => Err(e),
    }
}

/// The message that carries the pending events of an object.
pub open spec fn spec_pending_message(object: &SharedObject) -> Result<Seq<u8>, Error> {
    spec_amf3_shared_object_bytes(
        object.name@,
        object.version,
        object.persistant,
        spec_event_views(object.events@),
    )
}

/// Writes the messages of a registered shared object.
pub struct SharedObjectWriter {
    /// The name the object is registered under.
    shared_object: String,
}

impl SharedObjectWriter {
    /// The name of the object that is written.
    pub closed spec fn spec_name(&self) -> Seq<char> {
        self.shared_object@
    }

    /// A writer for the object registered under the name.
    pub fn new(shared_object: String) -> (r: Self)
        ensures
            r.spec_name() == shared_object@,
    {
        SharedObjectWriter { shared_object }
    }

    /// Appends a length-prefixed string.
    pub fn write_string(target_string: &str, payload_vector: &mut Vec<u8>) -> (r: Result<
        (),
        Error,
    >)
        ensures
            match r {
                Ok(()) => encode_utf8(target_string@).len() <= 0xFFFF && final(payload_vector)@
                    == old(payload_vector)@ + spec_string_bytes(target_string@),
                Err(e) => encode_utf8(target_string@).len() > 0xFFFF && e == Error::StringTooLong
                    && final(payload_vector)@ == old(payload_vector)@,
            },
    {
        put_string(payload_vector, target_string)
    }

    /// Appends the body of a change or a request for one: the key, then
    /// the value in AMF0.
    pub fn write_request_change_event(
        key: &str,
        value: &AmfValue,
        event_payload: &mut Vec<u8>,
    ) -> (r: Result<(), Error>)
        ensures
            match r {
                Ok(()) => spec_event_body(
                    SharedObjectEventView::RequestChange { key: key@, value: value@ },
                ) matches Ok(body) && final(event_payload)@ == old(event_payload)@ + body,
                Err(e) => spec_event_body(
                    SharedObjectEventView::RequestChange { key: key@, value: value@ },
                ) == Err::<Seq<u8>, Error>(e) && final(event_payload)@ == old(event_payload)@,
            },
    {
        let mut body: Vec<u8> = Vec::new();
        Self::write_string(key, &mut body)?;
        encode_amf0(value, &mut body)?;
        assert(body@ =~= spec_string_bytes(key@) + spec_encode_amf0(value@)->0);
        put_slice(event_payload, body.as_slice());
        Ok(())
    }

    /// Appends an event: tag, length of the body, body. Where the event
    /// cannot be written, nothing is appended.
    pub fn write_shared_object_event(event: &SharedObjectEvent, payload_vector: &mut Vec<u8>) -> (r:
        Result<(), Error>)
        ensures
            match r {
                Ok(()) => spec_event_bytes(event@) matches Ok(bytes) && final(payload_vector)@
                    == old(payload_vector)@ + bytes,
                Err(e) => spec_event_bytes(event@) == Err::<Seq<u8>, Error>(e)
                    && final(payload_vector)@ == old(payload_vector)@,
            },
    {
        let mut event_payload: Vec<u8> = Vec::new();
        let event_type = event.get_type();
        match event {
            SharedObjectEvent::RequestChange { key, value } => {
                Self::write_request_change_event(key.as_str(), value, &mut event_payload)?;
                assert(Seq::<u8>::empty() + event_payload@ =~= event_payload@);
            },
            SharedObjectEvent::Change { key, value } => {
                Self::write_request_change_event(key.as_str(), value, &mut event_payload)?;
                assert(Seq::<u8>::empty() + event_payload@ =~= event_payload@);
            },
            SharedObjectEvent::Remove { key } => {
                Self::write_string(key.as_str(), &mut event_payload)?;
                assert(event_payload@ =~= spec_string_bytes(key@));
            },
            SharedObjectEvent::RequestRemove { key } => {
                Self::write_string(key.as_str(), &mut event_payload)?;
                assert(event_payload@ =~= spec_string_bytes(key@));
            },
            SharedObjectEvent::Status { code, level } => {
                if code.as_str().as_bytes().len() > 0xFFFF || level.as_str().as_bytes().len()
                    > 0xFFFF {
                    return Err(Error::StringTooLong);
                }
                Self::write_string(code.as_str(), &mut event_payload)?;
                Self::write_string(level.as_str(), &mut event_payload)?;
                assert(event_payload@ =~= spec_string_bytes(code@) + spec_string_bytes(level@));
            },
            _ => {},
        }
        assert(spec_event_body(event@) == Ok::<Seq<u8>, Error>(event_payload@));
        if event_payload.len() > 0xFFFF_FFFF {
            return Err(Error::MessageTooLong);
        }
        payload_vector.push(event_type);
        put_u32_be(payload_vector, event_payload.len() as u32);
        put_slice(payload_vector, event_payload.as_slice());
        assert(payload_vector@ =~= old(payload_vector)@ + (seq![event@.spec_type()] + u32_be_bytes(
            event_payload@.len() as u32,
        ) + event_payload@));
        Ok(())
    }

    /// Appends a run of events, one behind the other. Where one of them
    /// cannot be written, nothing is appended.
    pub fn write_events(events: &Vec<SharedObjectEvent>, payload_vector: &mut Vec<u8>) -> (r:
        Result<(), Error>)
        ensures
            match r {
                Ok(()) => spec_events_bytes(spec_event_views(events@)) matches Ok(bytes)
                    && final(payload_vector)@ == old(payload_vector)@ + bytes,
                Err(e) => spec_events_bytes(spec_event_views(events@)) == Err::<Seq<u8>, Error>(e)
                    && final(payload_vector)@ == old(payload_vector)@,
            },
    {
        let mut encoded: Vec<u8> = Vec::new();
        let ghost all = spec_event_views(events@);
        let mut k: usize = 0;
        proof {
            assert(all.skip(0) =~= all);
            match spec_events_bytes(all) {
                Ok(more) => {
                    assert(encoded@ + more =~= more);
                },
                Err(_) => {},
            }
        }
        while k < events.len()
            invariant
                k <= events@.len(),
                all == spec_event_views(events@),
                payload_vector@ == old(payload_vector)@,
                spec_events_bytes(all) == (match spec_events_bytes(all.skip(k as int)) {
                    Ok(more) => Ok(encoded@ + more),
                    Err(e) => Err(e),
                }),
            decreases events@.len() - k,
        {
            let ghost before = encoded@;
            proof {
                assert(all.skip(k as int)[0] == events@[k as int]@);
                assert(all.skip(k as int).skip(1) =~= all.skip(k as int + 1));
            }
            match Self::write_shared_object_event(&events[k], &mut encoded) {
                Ok(()) => {},
                Err(e) => { return Err(e); },
            }
            k += 1;
            proof {
                let first = spec_event_bytes(events@[k as int - 1]@)->Ok_0;
                match spec_events_bytes(all.skip(k as int)) {
                    Ok(more) => {
                        assert(before + (first + more) =~= encoded@ + more);
                    },
                    Err(_) => {},
                }
            }
        }
        proof {
            assert(all.skip(k as int) =~= Seq::<SharedObjectEventView>::empty());
            assert(encoded@ + Seq::<u8>::empty() =~= encoded@);
        }
        put_slice(payload_vector, encoded.as_slice());
        Ok(())
    }

    /// Appends the AMF0 form of the message that carries the pending
    /// events of an object. Where it cannot be written, nothing is
    /// appended.
    pub fn write_amf0_shared_object(shared_object: &SharedObject, payload_vector: &mut Vec<u8>) -> (r:
        Result<(), Error>)
        ensures
            match r {
                Ok(()) => spec_amf0_shared_object_bytes(
                    shared_object.name@,
                    shared_object.version,
                    shared_object.persistant,
                    spec_event_views(shared_object.events@),
                ) matches Ok(bytes) && final(payload_vector)@ == old(payload_vector)@ + bytes,
                Err(e) => spec_amf0_shared_object_bytes(
                    shared_object.name@,
                    shared_object.version,
                    shared_object.persistant,
                    spec_event_views(shared_object.events@),
                ) == Err::<Seq<u8>, Error>(e) && final(payload_vector)@ == old(payload_vector)@,
            },
    {
        let mut encoded: Vec<u8> = Vec::new();
        Self::write_string(shared_object.name.as_str(), &mut encoded)?;
        put_u32_be(&mut encoded, shared_object.version);
        let persistant_value: u32 = if shared_object.persistant {
            2
        } else {
            0
        };
        put_u32_be(&mut encoded, persistant_value);
        put_u32_be(&mut encoded, 0);
        Self::write_events(&shared_object.events, &mut encoded)?;
        put_slice(payload_vector, encoded.as_slice());
        proof {
            let bytes = spec_amf0_shared_object_bytes(
                shared_object.name@,
                shared_object.version,
                shared_object.persistant,
                spec_event_views(shared_object.events@),
            )->Ok_0;
            assert(encoded@ =~= bytes);
        }
        Ok(())
    }

    /// Appends the AMF3 form of the message that carries the pending
    /// events of an object: a zero byte, then the AMF0 form. Where it
    /// cannot be written, nothing is appended.
    pub fn write_amf3_shared_object(shared_object: &SharedObject, payload_vector: &mut Vec<u8>) -> (r:
        Result<(), Error>)
        ensures
            match r {
                Ok(()) => spec_pending_message(shared_object) matches Ok(bytes)
                    && final(payload_vector)@ == old(payload_vector)@ + bytes,
                Err(e) => spec_pending_message(shared_object) == Err::<Seq<u8>, Error>(e)
                    && final(payload_vector)@ == old(payload_vector)@,
            },
    {
        let mut encoded: Vec<u8> = Vec::new();
        encoded.push(0x00);
        Self::write_amf0_shared_object(shared_object, &mut encoded)?;
        put_slice(payload_vector, encoded.as_slice());
        proof {
            assert(encoded@ =~= seq![0u8] + spec_amf0_shared_object_bytes(
                shared_object.name@,
                shared_object.version,
                shared_object.persistant,
                spec_event_views(shared_object.events@),
            )->Ok_0);
        }
        Ok(())
    }

    /// Appends the message that carries the pending events of the object
    /// that this writer is for. The events stay pending.
    pub fn write<T: Transport, F: Fn(TransactionResult, AmfValue, Vec<AmfValue>)>(
        &self,
        payload_vector: &mut Vec<u8>,
        context: &NetConnectionContext<T, F>,
    ) -> (r: Result<(), Error>)
        ensures
            match r {
                Ok(()) => context.spec_has_shared_object(self.spec_name()) && (spec_pending_message(
                    &context.shared_objects@[spec_position(
                        context.shared_objects@,
                        self.spec_name(),
                    )],
                ) matches Ok(bytes) && final(payload_vector)@ == old(payload_vector)@ + bytes),
                Err(e) => final(payload_vector)@ == old(payload_vector)@ && if 
                    !context.spec_has_shared_object(self.spec_name()) {
                    e == Error::UnknownSharedObject
                } else {
                    spec_pending_message(
                        &context.shared_objects@[spec_position(
                            context.shared_objects@,
                            self.spec_name(),
                        )],
                    ) == Err::<Seq<u8>, Error>(e)
                },
            },
    {
        let shared_object = context.get_shared_object(self.shared_object.as_str())?;
        Self::write_amf3_shared_object(shared_object, payload_vector)
    }
}

} // verus!
