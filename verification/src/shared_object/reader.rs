//! Decoding of shared object messages.

use crate::amf::{decode_amf0, spec_decode_amf0, AmfValue};
use crate::context::{spec_position, NetConnectionContext};
use crate::errors::Error;
use crate::net_connection::transaction_manager::TransactionResult;
use crate::shared_object::{
    spec_event_views, SharedObject, SharedObjectEvent, SharedObjectEventView,
};
use crate::transport::Transport;
use crate::utils::bytes::{
    be_u32, be_u8, read_string, spec_read_string, spec_u32_be, take, RTMPResult,
};
use vstd::prelude::*;

verus! {

/// The event that a body holds under a tag: `None` for a tag that names no
/// event, which is passed over; an error for a body that does not hold
/// what the tag calls for. A change holds a key and a value, a remove a
/// key, a status a code and a level; what else a body holds is not looked
/// at.
pub open spec fn spec_event_of(event_type: u8, body: Seq<u8>) -> Result<
    Option<SharedObjectEventView>,
    Error,
> {
    if event_type == 1 {
        Ok(Some(SharedObjectEventView::Use))
    } else if event_type == 2 {
        Ok(Some(SharedObjectEventView::Release))
    } else if event_type == 3 || event_type == 4 {
        match spec_read_string(body) {
            Err(e) => Err(e),
            Ok((rest, key)) => match spec_decode_amf0(rest) {
                None => Err(Error::AmfDecode),
                Some((value, _)) => if event_type == 3 {
                    Ok(Some(SharedObjectEventView::RequestChange { key, value }))
                } else {
                    Ok(Some(SharedObjectEventView::Change { key, value }))
                },
            },
        }
    } else if event_type == 5 {
        Ok(Some(SharedObjectEventView::Success))
    } else if event_type == 6 {
        Ok(Some(SharedObjectEventView::SendMessage))
    } else if event_type == 7 {
        match spec_read_string(body) {
            Err(e) => Err(e),
            Ok((rest, code)) => match spec_read_string(rest) {
                Err(e) => Err(e),
                Ok((_, level)) => Ok(Some(SharedObjectEventView::Status { code, level })),
            },
        }
    } else if event_type == 8 {
        Ok(Some(SharedObjectEventView::Clear))
    } else if event_type == 9 || event_type == 10 {
        match spec_read_string(body) {
            Err(e) => Err(e),
            Ok((_, key)) => if event_type == 9 {
                Ok(Some(SharedObjectEventView::Remove { key }))
            } else {
                Ok(Some(SharedObjectEventView::RequestRemove { key }))
            },
        }
    } else if event_type == 11 {
        Ok(Some(SharedObjectEventView::UseSuccess))
    } else {
        Ok(None)
    }
}

/// What reading one event from the front of a byte sequence gives: the
/// bytes behind the event and the event, or the reason there is none. An
/// event is a tag, the length of its body in 32 bits big-endian, and its
/// body.
pub open spec fn spec_read_event(s: Seq<u8>) -> Result<
    (Seq<u8>, Option<SharedObjectEventView>),
    Error,
> {
    if s.len() < 1 {
        Err(Error::Incomplete { needed: 1 })
    } else if s.len() < 5 {
        Err(Error::Incomplete { needed: 4 })
    } else {
        let length = spec_u32_be(s.skip(1));
        if s.len() - 5 < length {
            Err(Error::Incomplete { needed: length as usize })
        } else {
            match spec_event_of(s[0], s.subrange(5, 5 + length)) {
                Ok(event) => Ok((s.skip(5 + length), event)),
                Err(e) => Err(e),
            }
        }
    }
}

/// What reading events from a byte sequence until it is used up gives: the
/// events in the order they stand in, without those of unknown tags.
pub open spec fn spec_read_events(s: Seq<u8>) -> Result<Seq<SharedObjectEventView>, Error>
    decreases s.len(),
{
    if s.len() == 0 {
        Ok(Seq::empty())
    } else {
        match spec_read_event(s) {
            Err(e) => Err(e),
            Ok((rest, event)) => if rest.len() < s.len() {
                match spec_read_events(rest) {
                    Err(e) => Err(e),
                    Ok(more) => Ok(
                        match event {
                            Some(event) => seq![event] + more,
                            None => more,
                        },
                    ),
                }
            } else {
                Err(Error::Incomplete { needed: 1 })
            },
        }
    }
}

/// What a shared object message says: which object it is about, the
/// version the server has of it, and what has happened to it.
#[derive(Debug, PartialEq)]
pub struct SharedObjectMessage {
    pub name: String,
    pub version: u32,
    pub events: Vec<SharedObjectEvent>,
}

/// A shared object message, its strings and lists as sequences.
pub struct SharedObjectMessageView {
    pub name: Seq<char>,
    pub version: u32,
    pub events: Seq<SharedObjectEventView>,
}

impl View for SharedObjectMessage {
    type V = SharedObjectMessageView;

    open spec fn view(&self) -> SharedObjectMessageView {
        SharedObjectMessageView {
            name: self.name@,
            version: self.version,
            events: spec_event_views(self.events@),
        }
    }
}

/// What reading a shared object message gives: the name, the version, two
/// words of flags that are passed over, and the events.
pub open spec fn spec_read_shared_object(s: Seq<u8>) -> Result<SharedObjectMessageView, Error> {
    match spec_read_string(s) {
        Err(e) => Err(e),
        Ok((rest, name)) => if rest.len() < 12 {
            Err(Error::Incomplete { needed: 4 })
        } else {
            match spec_read_events(rest.skip(12)) {
                Err(e) => Err(e),
                Ok(events) => Ok(
                    SharedObjectMessageView { name, version: spec_u32_be(rest) as u32, events },
                ),
            }
        },
    }
}

/// Reads shared object messages.
pub struct SharedObjectReader {}

impl SharedObjectReader {
    pub fn new() -> (r: Self) {
        SharedObjectReader {  }
    }

    /// Reads a length-prefixed string.
    pub fn read_string<'b>(&self, payload: &'b [u8]) -> (r: RTMPResult<'b, String>)
        ensures
            match r {
                Ok((rest, s)) => spec_read_string(payload@) == Ok::<(Seq<u8>, Seq<char>), Error>(
                    (rest@, s@),
                ),
                Err(e) => spec_read_string(payload@) == Err::<(Seq<u8>, Seq<char>), Error>(e),
            },
    {
        read_string(payload)
    }

    /// Reads the body of a change: the key, then the value in AMF0. What
    /// follows the value is passed over.
    pub fn read_change_event<'b>(&self, payload: &'b [u8]) -> (r: RTMPResult<
        'b,
        SharedObjectEvent,
    >)
        ensures
            match r {
                Ok((rest, event)) => spec_event_of(4, payload@) == Ok::<
                    Option<SharedObjectEventView>,
                    Error,
                >(Some(event@)) && (spec_read_string(payload@) matches Ok((after_key, _)) && (
                spec_decode_amf0(after_key) matches Some((_, left)) && rest@ == after_key.skip(
                    after_key.len() - left,
                ))),
                Err(e) => spec_event_of(4, payload@) == Err::<Option<SharedObjectEventView>, Error>(
                    e,
                ),
            },
    {
        let (i, key) = self.read_string(payload)?;
        let (i, value) = decode_amf0(i)?;
        Ok((i, SharedObjectEvent::Change { key, value }))
    }

    /// Reads one event: tag, length, body.
    pub fn read_event<'b>(&self, payload: &'b [u8]) -> (r: RTMPResult<'b, Option<SharedObjectEvent>>)
        ensures
            match r {
                Ok((rest, event)) => spec_read_event(payload@) == Ok::<
                    (Seq<u8>, Option<SharedObjectEventView>),
                    Error,
                >(
                    (
                        rest@,
                        match event {
                            Some(e) => Some(e@),
                            None => None,
                        },
                    ),
                ) && rest@.len() + 5 <= payload@.len(),
                Err(e) => spec_read_event(payload@) == Err::<
                    (Seq<u8>, Option<SharedObjectEventView>),
                    Error,
                >(e),
            },
    {
        let (i, event_type) = be_u8(payload)?;
        let (i, event_length) = be_u32(i)?;
        let (i, event_payload) = take(i, event_length as usize)?;
        proof {
            assert(event_payload@ =~= payload@.subrange(5, 5 + event_length));
            assert(i@ =~= payload@.skip(5 + event_length));
        }
        let event = match event_type {
            1 => Some(SharedObjectEvent::Use),
            2 => Some(SharedObjectEvent::Release),
            3 => {
                let (rest, key) = self.read_string(event_payload)?;
                let (_, value) = decode_amf0(rest)?;
                Some(SharedObjectEvent::RequestChange { key, value })
            },
            4 => {
                let (_, event) = self.read_change_event(event_payload)?;
                Some(event)
            },
            5 => Some(SharedObjectEvent::Success),
            6 => Some(SharedObjectEvent::SendMessage),
            7 => {
                let (rest, code) = self.read_string(event_payload)?;
                let (_, level) = self.read_string(rest)?;
                Some(SharedObjectEvent::Status { code, level })
            },
            8 => Some(SharedObjectEvent::Clear),
            9 => {
                let (_, key) = self.read_string(event_payload)?;
                Some(SharedObjectEvent::Remove { key })
            },
            10 => {
                let (_, key) = self.read_string(event_payload)?;
                Some(SharedObjectEvent::RequestRemove { key })
            },
            11 => Some(SharedObjectEvent::UseSuccess),
            _ => None,
        };
        Ok((i, event))
    }

    /// Reads a shared object message: the name, the version, the flags and
    /// the events up to the end of the payload.
    #[verifier::loop_isolation(false)]
    pub fn read_message(&self, payload: &[u8]) -> (r: Result<SharedObjectMessage, Error>)
        ensures
            match r {
                Ok(message) => spec_read_shared_object(payload@) == Ok::<
                    SharedObjectMessageView,
                    Error,
                >(message@),
                Err(e) => spec_read_shared_object(payload@)
                    == Err::<SharedObjectMessageView, Error>(
                    e,
                ),
            },
    {
        let (i, name) = self.read_string(payload)?;
        let ghost after_name = i@;
        let (i, version) = be_u32(i)?;
        let (i, _flags) = be_u32(i)?;
        let (i, _reserved) = be_u32(i)?;
        proof {
            assert(i@ =~= after_name.skip(12));
        }
        let ghost all = i@;
        let mut i = i;
        let mut events: Vec<SharedObjectEvent> = Vec::new();
        proof {
            match spec_read_events(all) {
                Ok(more) => {
                    assert(spec_event_views(events@) + more =~= more);
                },
                Err(_) => {},
            }
        }
        while i.len() > 0
            invariant
                spec_read_events(all) == (match spec_read_events(i@) {
                    Ok(more) => Ok(spec_event_views(events@) + more),
                    Err(e) => Err(e),
                }),
            decreases i@.len(),
        {
            let ghost before = spec_event_views(events@);
            let (j, event) = self.read_event(i)?;
            match event {
                Some(event) => {
                    let ghost view = event@;
                    events.push(event);
                    proof {
                        assert(spec_event_views(events@) =~= before.push(view));
                        match spec_read_events(j@) {
                            Ok(more) => {
                                assert(before + (seq![view] + more) =~= spec_event_views(events@)
                                    + more);
                            },
                            Err(_) => {},
                        }
                    }
                },
                None => {},
            }
            i = j;
        }
        proof {
            assert(spec_event_views(events@) + Seq::<SharedObjectEventView>::empty()
                =~= spec_event_views(events@));
        }
        Ok(SharedObjectMessage { name, version, events })
    }

    /// Reads a shared object message and hands it to the object that it
    /// names: its events are put behind those that the object has received
    /// and not yet applied, and its version becomes the object's. Gives the
    /// name of the object. Where the message cannot be read or names no
    /// registered object, nothing changes.
    pub fn read<T: Transport, F: Fn(TransactionResult, AmfValue, Vec<AmfValue>)>(
        &self,
        context: &mut NetConnectionContext<T, F>,
        payload: &[u8],
    ) -> (r: Result<String, Error>)
        requires
            old(context).wf(),
        ensures
            final(context).wf(),
            final(context).spec_same_io(old(context)),
            match r {
                Ok(name) => {
                    let at = spec_position(old(context).shared_objects@, name@);
                    &&& spec_read_shared_object(payload@) matches Ok(message)
                    &&& message.name == name@
                    &&& old(context).spec_has_shared_object(name@)
                    &&& final(context).shared_objects@.len() == old(context).shared_objects@.len()
                    &&& forall|i: int|
                        0 <= i < old(context).shared_objects@.len() && i != at
                            ==> final(context).shared_objects@[i]
                            == old(context).shared_objects@[i]
                    &&& final(context).shared_objects@[at].spec_received_from(
                        &old(context).shared_objects@[at],
                        message,
                    )
                },
                Err(e) => {
                    &&& final(context).shared_objects == old(context).shared_objects
                    &&& match spec_read_shared_object(payload@) {
                        Ok(message) => !old(context).spec_has_shared_object(message.name) && e
                            == Error::UnknownSharedObject,
                        Err(fault) => e == fault,
                    }
                },
            },
    {
        let message = self.read_message(payload)?;
        if !context.has_shared_object(message.name.as_str()) {
            return Err(Error::UnknownSharedObject);
        }
        let ghost view = message@;
        let name = message.name.clone();
        proof {
            crate::context::lemma_position(context.shared_objects@, name@);
        }
        let at = context.position_of_shared_object(name.as_str());
        let mut shared_object = context.shared_objects.remove(at);
        shared_object.receive(message.version, message.events);
        context.shared_objects.insert(at, shared_object);
        Ok(name)
    }
}

} // verus!
