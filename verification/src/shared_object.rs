//! Shared objects: named maps kept in step with the server by events.

pub mod reader;
pub mod writer;

use crate::amf::{AmfProperty, AmfValue, AmfValueView};
use crate::chunk::writer::spec_message_bytes;
use crate::context::spec_position;
use crate::errors::Error;
use crate::net_connection::packets::RTMPMessageTypeView;
use crate::net_connection::transaction_manager::TransactionResult;
use crate::net_connection::writer::{spec_outbound, spec_wrote};
use crate::net_connection::NetConnection;
use crate::shared_object::writer::spec_amf3_shared_object_bytes;
use crate::transport::Transport;
use crate::utils::bytes::str_eq;
use vstd::prelude::*;
use vstd::string::*;

verus! {

/// One step in the life of a shared object.
#[derive(Debug, PartialEq)]
pub enum SharedObjectEvent {
    Use,
    Release,
    RequestChange { key: String, value: AmfValue },
    Change { key: String, value: AmfValue },
    Success,
    SendMessage,
    Status { code: String, level: String },
    Clear,
    Remove { key: String },
    RequestRemove { key: String },
    UseSuccess,
}

/// An event, its strings as sequences of characters.
pub enum SharedObjectEventView {
    Use,
    Release,
    RequestChange { key: Seq<char>, value: AmfValueView },
    Change { key: Seq<char>, value: AmfValueView },
    Success,
    SendMessage,
    Status { code: Seq<char>, level: Seq<char> },
    Clear,
    Remove { key: Seq<char> },
    RequestRemove { key: Seq<char> },
    UseSuccess,
}

impl View for SharedObjectEvent {
    type V = SharedObjectEventView;

    open spec fn view(&self) -> SharedObjectEventView {
        match self {
            SharedObjectEvent::Use => SharedObjectEventView::Use,
            SharedObjectEvent::Release => SharedObjectEventView::Release,
            SharedObjectEvent::RequestChange { key, value } => SharedObjectEventView::RequestChange {
                key: key@,
                value: value@,
            },
            SharedObjectEvent::Change { key, value } => SharedObjectEventView::Change {
                key: key@,
                value: value@,
            },
            SharedObjectEvent::Success => SharedObjectEventView::Success,
            SharedObjectEvent::SendMessage => SharedObjectEventView::SendMessage,
            SharedObjectEvent::Status { code, level } => SharedObjectEventView::Status {
                code: code@,
                level: level@,
            },
            SharedObjectEvent::Clear => SharedObjectEventView::Clear,
            SharedObjectEvent::Remove { key } => SharedObjectEventView::Remove { key: key@ },
            SharedObjectEvent::RequestRemove { key } => SharedObjectEventView::RequestRemove {
                key: key@,
            },
            SharedObjectEvent::UseSuccess => SharedObjectEventView::UseSuccess,
        }
    }
}

impl SharedObjectEventView {
    /// The event's tag on the wire.
    pub open spec fn spec_type(self) -> u8 {
        match self {
            SharedObjectEventView::Use => 1,
            SharedObjectEventView::Release => 2,
            SharedObjectEventView::RequestChange { .. } => 3,
            SharedObjectEventView::Change { .. } => 4,
            SharedObjectEventView::Success => 5,
            SharedObjectEventView::SendMessage => 6,
            SharedObjectEventView::Status { .. } => 7,
            SharedObjectEventView::Clear => 8,
            SharedObjectEventView::Remove { .. } => 9,
            SharedObjectEventView::RequestRemove { .. } => 10,
            SharedObjectEventView::UseSuccess => 11,
        }
    }

    /// Whether the event is one that a client sends to the server.
    pub open spec fn spec_is_client_originated(self) -> bool {
        self is Use || self is Release || self is RequestChange || self is RequestRemove
            || self is SendMessage
    }
}

impl Clone for SharedObjectEvent {
    fn clone(&self) -> (r: Self)
        ensures
            r@ == self@,
    {
        match self {
            SharedObjectEvent::Use => SharedObjectEvent::Use,
            SharedObjectEvent::Release => SharedObjectEvent::Release,
            SharedObjectEvent::RequestChange { key, value } => SharedObjectEvent::RequestChange {
                key: key.clone(),
                value: value.clone(),
            },
            SharedObjectEvent::Change { key, value } => SharedObjectEvent::Change {
                key: key.clone(),
                value: value.clone(),
            },
            SharedObjectEvent::Success => SharedObjectEvent::Success,
            SharedObjectEvent::SendMessage => SharedObjectEvent::SendMessage,
            SharedObjectEvent::Status { code, level } => SharedObjectEvent::Status {
                code: code.clone(),
                level: level.clone(),
            },
            SharedObjectEvent::Clear => SharedObjectEvent::Clear,
            SharedObjectEvent::Remove { key } => SharedObjectEvent::Remove { key: key.clone() },
            SharedObjectEvent::RequestRemove { key } => SharedObjectEvent::RequestRemove {
                key: key.clone(),
            },
            SharedObjectEvent::UseSuccess => SharedObjectEvent::UseSuccess,
        }
    }
}

impl SharedObjectEvent {
    /// The event's tag on the wire.
    pub fn get_type(&self) -> (r: u8)
        ensures
            r == self@.spec_type(),
    {
        match self {
            SharedObjectEvent::Use => 1,
            SharedObjectEvent::Release => 2,
            SharedObjectEvent::RequestChange { .. } => 3,
            SharedObjectEvent::Change { .. } => 4,
            SharedObjectEvent::Success => 5,
            SharedObjectEvent::SendMessage => 6,
            SharedObjectEvent::Status { .. } => 7,
            SharedObjectEvent::Clear => 8,
            SharedObjectEvent::Remove { .. } => 9,
            SharedObjectEvent::RequestRemove { .. } => 10,
            SharedObjectEvent::UseSuccess => 11,
        }
    }

    /// Whether the event is one that a client sends to the server.
    pub fn is_client_originated(&self) -> (r: bool)
        ensures
            r == self@.spec_is_client_originated(),
    {
        match self {
            SharedObjectEvent::Use
            | SharedObjectEvent::Release
            | SharedObjectEvent::RequestChange { .. }
            | SharedObjectEvent::RequestRemove { .. }
            | SharedObjectEvent::SendMessage => true,
            _ => false,
        }
    }
}

/// The views of a list of events, one by one.
pub open spec fn spec_event_views(events: Seq<SharedObjectEvent>) -> Seq<SharedObjectEventView> {
    Seq::new(events.len(), |i: int| events[i]@)
}

/// The views of a list of properties, one by one.
pub open spec fn spec_property_views(properties: Seq<AmfProperty>) -> Seq<
    (Seq<char>, AmfValueView),
> {
    Seq::new(properties.len(), |i: int| properties[i]@)
}

/// Whether everything changed locally has been sent to the server.
#[derive(Debug, Clone, Copy, PartialEq, Eq, Structural)]
pub enum SharedObjectFlushState {
    FLUSHED,
    PENDING,
}

/// The map that a list of entries stands for: of two entries with one key,
/// the later counts.
pub open spec fn spec_map_of(entries: Seq<(Seq<char>, AmfValueView)>) -> Map<
    Seq<char>,
    AmfValueView,
>
    decreases entries.len(),
{
    if entries.len() == 0 {
        Map::empty()
    } else {
        spec_map_of(entries.drop_last()).insert(entries.last().0, entries.last().1)
    }
}

/// A list of entries without those that have the given key.
pub open spec fn spec_without(entries: Seq<(Seq<char>, AmfValueView)>, key: Seq<char>) -> Seq<
    (Seq<char>, AmfValueView),
>
    decreases entries.len(),
{
    if entries.len() == 0 {
        entries
    } else if entries.last().0 == key {
        spec_without(entries.drop_last(), key)
    } else {
        spec_without(entries.drop_last(), key).push(entries.last())
    }
}

/// Taking the entries of a key out of a list takes the key out of its map.
pub proof fn lemma_map_of_without(entries: Seq<(Seq<char>, AmfValueView)>, key: Seq<char>)
    ensures
        spec_map_of(spec_without(entries, key)) == spec_map_of(entries).remove(key),
    decreases entries.len(),
{
    if entries.len() == 0 {
        assert(spec_map_of(entries).remove(key) =~= spec_map_of(entries));
    } else {
        lemma_map_of_without(entries.drop_last(), key);
        let rest = spec_without(entries.drop_last(), key);
        if entries.last().0 == key {
            assert(spec_map_of(entries).remove(key) =~= spec_map_of(entries.drop_last()).remove(
                key,
            ));
        } else {
            assert(rest.push(entries.last()).drop_last() =~= rest);
            assert(spec_map_of(entries).remove(key) =~= spec_map_of(entries.drop_last()).remove(
                key,
            ).insert(entries.last().0, entries.last().1));
        }
    }
}

/// What the events of the server act on: the data, the flag that the
/// server has accepted the object, and the log of the events that are only
/// taken note of.
pub struct SharedObjectState {
    pub data: Map<Seq<char>, AmfValueView>,
    pub use_success: bool,
    pub processed: Seq<SharedObjectEventView>,
}

/// What one event makes of the state. A change writes a property, a remove
/// deletes one, a clear deletes all; a use-success sets the flag; status,
/// success, release and send-message are logged; the events that only a
/// client sends leave the state as it is.
pub open spec fn spec_apply_event(state: SharedObjectState, event: SharedObjectEventView) -> SharedObjectState {
    match event {
        SharedObjectEventView::Change { key, value } => SharedObjectState {
            data: state.data.insert(key, value),
            ..state
        },
        SharedObjectEventView::Remove { key } => SharedObjectState {
            data: state.data.remove(key),
            ..state
        },
        SharedObjectEventView::Clear => SharedObjectState { data: Map::empty(), ..state },
        SharedObjectEventView::UseSuccess => SharedObjectState { use_success: true, ..state },
        SharedObjectEventView::Status { .. }
        | SharedObjectEventView::Success
        | SharedObjectEventView::Release
        | SharedObjectEventView::SendMessage => SharedObjectState {
            processed: state.processed.push(event),
            ..state
        },
        SharedObjectEventView::Use
        | SharedObjectEventView::RequestChange { .. }
        | SharedObjectEventView::RequestRemove { .. } => state,
    }
}

/// What a run of events makes of the state, one event after the other.
pub open spec fn spec_apply_events(state: SharedObjectState, events: Seq<SharedObjectEventView>) -> SharedObjectState
    decreases events.len(),
{
    if events.len() == 0 {
        state
    } else {
        spec_apply_events(spec_apply_event(state, events[0]), events.skip(1))
    }
}

/// Applying one run of events and then another gives the state that
/// applying the two runs as one gives.
pub proof fn lemma_apply_events_concat(
    state: SharedObjectState,
    first: Seq<SharedObjectEventView>,
    second: Seq<SharedObjectEventView>,
)
    ensures
        spec_apply_events(spec_apply_events(state, first), second) == spec_apply_events(
            state,
            first + second,
        ),
    decreases first.len(),
{
    if first.len() == 0 {
        assert(first + second =~= second);
    } else {
        assert((first + second)[0] == first[0]);
        assert((first + second).skip(1) =~= first.skip(1) + second);
        lemma_apply_events_concat(spec_apply_event(state, first[0]), first.skip(1), second);
    }
}

/// A named map that is kept in step with the server.
#[derive(Debug, PartialEq)]
pub struct SharedObject {
    pub name: String,
    pub persistant: bool,
    pub version: u32,
    /// The properties, as a list of entries.
    pub data: Vec<AmfProperty>,
    /// The events that wait to be sent to the server.
    pub events: Vec<SharedObjectEvent>,
    /// The events that came from the server and are not applied yet.
    pub received_events: Vec<SharedObjectEvent>,
    /// The events from the server that were only taken note of.
    pub processed_events: Vec<SharedObjectEvent>,
    pub flush_state: SharedObjectFlushState,
    pub use_success: bool,
}

impl SharedObject {
    /// The properties as a map.
    pub open spec fn spec_data(&self) -> Map<Seq<char>, AmfValueView> {
        spec_map_of(spec_property_views(self.data@))
    }

    /// What the events of the server act on.
    pub open spec fn spec_state(&self) -> SharedObjectState {
        SharedObjectState {
            data: self.spec_data(),
            use_success: self.use_success,
            processed: spec_event_views(self.processed_events@),
        }
    }

    /// The events that wait to be sent.
    pub open spec fn spec_pending(&self) -> Seq<SharedObjectEventView> {
        spec_event_views(self.events@)
    }

    /// While an event of the client waits to be sent, the object is not
    /// flushed.
    pub open spec fn wf(&self) -> bool {
        (exists|i: int|
            0 <= i < self.events@.len()
                && (#[trigger] self.events@[i])@.spec_is_client_originated())
            ==> self.flush_state == SharedObjectFlushState::PENDING
    }

    /// An empty object at version 0 that nothing waits on.
    pub fn new(name: String, persistant: bool) -> (r: Self)
        ensures
            r.wf(),
            r.name == name,
            r.persistant == persistant,
            r.version == 0,
            r.spec_data() == Map::<Seq<char>, AmfValueView>::empty(),
            r.spec_pending() == Seq::<SharedObjectEventView>::empty(),
            r.received_events@.len() == 0,
            r.processed_events@.len() == 0,
            r.flush_state == SharedObjectFlushState::FLUSHED,
            !r.use_success,
    {
        let r = SharedObject {
            name,
            persistant,
            version: 0,
            data: Vec::new(),
            events: Vec::new(),
            received_events: Vec::new(),
            processed_events: Vec::new(),
            flush_state: SharedObjectFlushState::FLUSHED,
            use_success: false,
        };
        assert(spec_property_views(r.data@) =~= Seq::empty());
        assert(r.spec_pending() =~= Seq::<SharedObjectEventView>::empty());
        r
    }

    /// An empty object, as `new` makes it.
    pub fn new_shared_object(name: String, persistant: bool) -> (r: Self)
        ensures
            r.wf(),
            r.name == name,
            r.persistant == persistant,
            r.version == 0,
            r.spec_data() == Map::<Seq<char>, AmfValueView>::empty(),
            r.spec_pending() == Seq::<SharedObjectEventView>::empty(),
            r.received_events@.len() == 0,
            r.processed_events@.len() == 0,
            r.flush_state == SharedObjectFlushState::FLUSHED,
            !r.use_success,
    {
        Self::new(name, persistant)
    }

    /// Drops the events that wait to be sent and marks the object flushed.
    pub fn clear_events(&mut self)
        ensures
            final(self).wf(),
            final(self).spec_pending() == Seq::<SharedObjectEventView>::empty(),
            final(self).flush_state == SharedObjectFlushState::FLUSHED,
            final(self).name == old(self).name,
            final(self).persistant == old(self).persistant,
            final(self).version == old(self).version,
            final(self).data == old(self).data,
            final(self).received_events == old(self).received_events,
            final(self).processed_events == old(self).processed_events,
            final(self).use_success == old(self).use_success,
    {
        self.events.clear();
        self.flush_state = SharedObjectFlushState::FLUSHED;
        assert(self.spec_pending() =~= Seq::<SharedObjectEventView>::empty());
    }

    /// Puts an event behind those that wait to be sent. An event that a
    /// client sends marks the object as not flushed.
    pub fn dispatch_event(&mut self, event: SharedObjectEvent)
        requires
            old(self).wf(),
        ensures
            final(self).wf(),
            final(self).spec_pending() == old(self).spec_pending().push(event@),
            final(self).flush_state == if event@.spec_is_client_originated() {
                SharedObjectFlushState::PENDING
            } else {
                old(self).flush_state
            },
            final(self).name == old(self).name,
            final(self).persistant == old(self).persistant,
            final(self).version == old(self).version,
            final(self).data == old(self).data,
            final(self).received_events == old(self).received_events,
            final(self).processed_events == old(self).processed_events,
            final(self).use_success == old(self).use_success,
    {
        if event.is_client_originated() {
            self.flush_state = SharedObjectFlushState::PENDING;
        }
        self.events.push(event);
        proof {
            assert(self.spec_pending() =~= old(self).spec_pending().push(event@));
            if self.flush_state != SharedObjectFlushState::PENDING {
                assert forall|i: int| 0 <= i < self.events@.len() implies !(
                #[trigger] self.events@[i])@.spec_is_client_originated() by {
                    if i < old(self).events@.len() {
                        assert(old(self).events@[i] == self.events@[i]);
                    }
                }
            }
        }
    }

    /// The value of a property, if the object has it.
    pub fn get_property(&self, key: &str) -> (r: Option<AmfValue>)
        ensures
            match r {
                Some(v) => self.spec_data().contains_key(key@) && self.spec_data()[key@] == v@,
                None => !self.spec_data().contains_key(key@),
            },
    {
        let mut i: usize = self.data.len();
        proof {
            assert(spec_property_views(self.data@).take(i as int) =~= spec_property_views(
                self.data@,
            ));
        }
        while i > 0
            invariant
                i <= self.data@.len(),
                self.spec_data().contains_key(key@) == spec_map_of(
                    spec_property_views(self.data@).take(i as int),
                ).contains_key(key@),
                self.spec_data().contains_key(key@) ==> self.spec_data()[key@] == spec_map_of(
                    spec_property_views(self.data@).take(i as int),
                )[key@],
            decreases i,
        {
            i -= 1;
            let ghost entries = spec_property_views(self.data@);
            proof {
                assert(entries.take(i as int + 1).drop_last() =~= entries.take(i as int));
                assert(entries.take(i as int + 1).last() == entries[i as int]);
            }
            if str_eq(self.data[i].name.as_str(), key) {
                return Some(self.data[i].value.clone());
            }
        }
        None
    }

    /// Takes the property with the given key out of a list of entries.
    fn remove_entry(data: &mut Vec<AmfProperty>, key: &str)
        ensures
            spec_map_of(spec_property_views(final(data)@)) == spec_map_of(
                spec_property_views(old(data)@),
            ).remove(key@),
    {
        let mut kept: Vec<AmfProperty> = Vec::new();
        let mut source: Vec<AmfProperty> = Vec::new();
        core::mem::swap(data, &mut source);
        let ghost entries = spec_property_views(source@);
        let mut i: usize = 0;
        proof {
            assert(spec_property_views(kept@) =~= spec_without(entries.take(0), key@));
        }
        while i < source.len()
            invariant
                i <= source@.len(),
                entries == spec_property_views(source@),
                spec_property_views(kept@) == spec_without(entries.take(i as int), key@),
            decreases source@.len() - i,
        {
            let ghost before = spec_property_views(kept@);
            proof {
                assert(entries.take(i as int + 1).drop_last() =~= entries.take(i as int));
                assert(entries.take(i as int + 1).last() == entries[i as int]);
            }
            if !str_eq(source[i].name.as_str(), key) {
                kept.push(source[i].clone());
                proof {
                    assert(spec_property_views(kept@) =~= before.push(entries[i as int]));
                }
            }
            i += 1;
        }
        proof {
            assert(entries.take(i as int) =~= entries);
            lemma_map_of_without(entries, key@);
        }
        *data = kept;
    }

    /// Sets a property here and asks the server to set it there: the
    /// request is put behind the events that wait to be sent.
    pub fn set_property(&mut self, key: String, value: AmfValue)
        requires
            old(self).wf(),
        ensures
            final(self).wf(),
            final(self).flush_state == SharedObjectFlushState::PENDING,
            final(self).spec_data() == old(self).spec_data().insert(key@, value@),
            final(self).spec_pending() == old(self).spec_pending().push(
                SharedObjectEventView::RequestChange { key: key@, value: value@ },
            ),
            final(self).name == old(self).name,
            final(self).persistant == old(self).persistant,
            final(self).version == old(self).version,
            final(self).received_events == old(self).received_events,
            final(self).processed_events == old(self).processed_events,
            final(self).use_success == old(self).use_success,
    {
        self.dispatch_event(
            SharedObjectEvent::RequestChange { key: key.clone(), value: value.clone() },
        );
        Self::remove_entry(&mut self.data, key.as_str());
        let ghost before = spec_property_views(self.data@);
        self.data.push(AmfProperty { name: key, value });
        proof {
            let after = spec_property_views(self.data@);
            assert(after.drop_last() =~= before);
            assert(after.last() == (key@, value@));
            assert(self.spec_data() =~= old(self).spec_data().insert(key@, value@));
        }
    }

    /// Empties the data.
    pub fn clear(&mut self)
        ensures
            final(self).spec_data() == Map::<Seq<char>, AmfValueView>::empty(),
            final(self).name == old(self).name,
            final(self).persistant == old(self).persistant,
            final(self).version == old(self).version,
            final(self).events == old(self).events,
            final(self).received_events == old(self).received_events,
            final(self).processed_events == old(self).processed_events,
            final(self).flush_state == old(self).flush_state,
            final(self).use_success == old(self).use_success,
    {
        self.data.clear();
        assert(spec_property_views(self.data@) =~= Seq::empty());
    }

    /// Whether this object is what `earlier` becomes when a message of
    /// the server is handed to it: the events of the message stand behind
    /// those received before, the version is that of the message, and all
    /// else is as it was.
    pub open spec fn spec_received_from(
        &self,
        earlier: &SharedObject,
        message: crate::shared_object::reader::SharedObjectMessageView,
    ) -> bool {
        &&& spec_event_views(self.received_events@) == spec_event_views(earlier.received_events@)
            + message.events
        &&& self.version == message.version
        &&& self.name == earlier.name
        &&& self.persistant == earlier.persistant
        &&& self.data == earlier.data
        &&& self.events == earlier.events
        &&& self.processed_events == earlier.processed_events
        &&& self.flush_state == earlier.flush_state
        &&& self.use_success == earlier.use_success
    }

    /// Whether this object is what `earlier` becomes once its pending
    /// events are sent: none waits any more, the object is flushed, and all
    /// else is as it was.
    pub open spec fn spec_flushed_from(&self, earlier: &SharedObject) -> bool {
        &&& self.spec_pending() == Seq::<SharedObjectEventView>::empty()
        &&& self.flush_state == SharedObjectFlushState::FLUSHED
        &&& self.name == earlier.name
        &&& self.persistant == earlier.persistant
        &&& self.version == earlier.version
        &&& self.data == earlier.data
        &&& self.received_events == earlier.received_events
        &&& self.processed_events == earlier.processed_events
        &&& self.use_success == earlier.use_success
    }

    /// Takes a run of events of the server and the version that came with
    /// them: the events are put behind those received and not yet applied.
    pub fn receive(&mut self, version: u32, events: Vec<SharedObjectEvent>)
        requires
            old(self).wf(),
        ensures
            final(self).wf(),
            spec_event_views(final(self).received_events@) == spec_event_views(
                old(self).received_events@,
            ) + spec_event_views(events@),
            final(self).version == version,
            final(self).name == old(self).name,
            final(self).persistant == old(self).persistant,
            final(self).data == old(self).data,
            final(self).events == old(self).events,
            final(self).processed_events == old(self).processed_events,
            final(self).flush_state == old(self).flush_state,
            final(self).use_success == old(self).use_success,
    {
        let ghost given = spec_event_views(events@);
        let mut events = events;
        self.received_events.append(&mut events);
        self.version = version;
        assert(spec_event_views(self.received_events@) =~= spec_event_views(
            old(self).received_events@,
        ) + given);
    }

    /// Applies one event of the server to the object.
    fn apply_event(&mut self, event: SharedObjectEvent)
        ensures
            final(self).spec_state() == spec_apply_event(old(self).spec_state(), event@),
            final(self).name == old(self).name,
            final(self).persistant == old(self).persistant,
            final(self).version == old(self).version,
            final(self).events == old(self).events,
            final(self).received_events == old(self).received_events,
            final(self).flush_state == old(self).flush_state,
    {
        match event {
            SharedObjectEvent::Change { key, value } => {
                Self::remove_entry(&mut self.data, key.as_str());
                let ghost before = spec_property_views(self.data@);
                self.data.push(AmfProperty { name: key, value });
                proof {
                    let after = spec_property_views(self.data@);
                    assert(after.drop_last() =~= before);
                    assert(after.last() == (key@, value@));
                    assert(self.spec_data() =~= old(self).spec_data().insert(key@, value@));
                }
            },
            SharedObjectEvent::Remove { key } => {
                Self::remove_entry(&mut self.data, key.as_str());
            },
            SharedObjectEvent::Clear => {
                self.data.clear();
                assert(spec_property_views(self.data@) =~= Seq::empty());
            },
            SharedObjectEvent::UseSuccess => {
                self.use_success = true;
            },
            SharedObjectEvent::Status { code, level } => {
                let noted = SharedObjectEvent::Status { code, level };
                self.processed_events.push(noted);
                assert(spec_event_views(self.processed_events@) =~= spec_event_views(
                    old(self).processed_events@,
                ).push(event@));
            },
            SharedObjectEvent::Success => {
                self.processed_events.push(SharedObjectEvent::Success);
                assert(spec_event_views(self.processed_events@) =~= spec_event_views(
                    old(self).processed_events@,
                ).push(event@));
            },
            SharedObjectEvent::Release => {
                self.processed_events.push(SharedObjectEvent::Release);
                assert(spec_event_views(self.processed_events@) =~= spec_event_views(
                    old(self).processed_events@,
                ).push(event@));
            },
            SharedObjectEvent::SendMessage => {
                self.processed_events.push(SharedObjectEvent::SendMessage);
                assert(spec_event_views(self.processed_events@) =~= spec_event_views(
                    old(self).processed_events@,
                ).push(event@));
            },
            SharedObjectEvent::Use => {},
            SharedObjectEvent::RequestChange { .. } => {},
            SharedObjectEvent::RequestRemove { .. } => {},
        }
    }

    /// Applies the events that came from the server, in the order they
    /// came, and forgets them. The events that wait to be sent stay.
    pub fn process_events(&mut self)
        ensures
            final(self).spec_state() == spec_apply_events(
                old(self).spec_state(),
                spec_event_views(old(self).received_events@),
            ),
            final(self).received_events@.len() == 0,
            final(self).name == old(self).name,
            final(self).persistant == old(self).persistant,
            final(self).version == old(self).version,
            final(self).events == old(self).events,
            final(self).flush_state == old(self).flush_state,
    {
        let mut received: Vec<SharedObjectEvent> = Vec::new();
        core::mem::swap(&mut self.received_events, &mut received);
        let ghost all = spec_event_views(received@);
        let mut i: usize = 0;
        proof {
            assert(all.skip(0) =~= all);
        }
        while i < received.len()
            invariant
                i <= received@.len(),
                all == spec_event_views(received@),
                spec_apply_events(old(self).spec_state(), all) == spec_apply_events(
                    self.spec_state(),
                    all.skip(i as int),
                ),
                self.received_events@.len() == 0,
                self.name == old(self).name,
                self.persistant == old(self).persistant,
                self.version == old(self).version,
                self.events == old(self).events,
                self.flush_state == old(self).flush_state,
            decreases received@.len() - i,
        {
            proof {
                assert(all.skip(i as int)[0] == all[i as int]);
                assert(all.skip(i as int).skip(1) =~= all.skip(i as int + 1));
            }
            self.apply_event(received[i].clone());
            i += 1;
        }
    }

    /// Connects an object to the server: a use event is put behind the
    /// events that wait to be sent, the object is registered with the
    /// connection under its name, and the events are sent.
    ///
    /// The object is registered whether or not sending succeeds. Once the
    /// events are sent none waits any more; where sending fails they stay.
    pub fn connect<T: Transport, F: Fn(TransactionResult, AmfValue, Vec<AmfValue>)>(
        shared_object: SharedObject,
        connection: &mut NetConnection<T, F>,
    ) -> (r: Result<(), Error>)
        requires
            shared_object.wf(),
            old(connection).context.wf(),
        ensures
            final(connection).context.wf(),
            final(connection).context.spec_has_shared_object(shared_object.name@),
            final(connection).context.spec_same_session_but_objects(&old(connection).context),
            final(connection).context.received@ == old(connection).context.received@,
            ({
                let name = shared_object.name@;
                let at = spec_position(final(connection).context.shared_objects@, name);
                let registered = final(connection).context.shared_objects@[at];
                let events = shared_object.spec_pending().push(SharedObjectEventView::Use);
                match spec_amf3_shared_object_bytes(
                    name,
                    shared_object.version,
                    shared_object.persistant,
                    events,
                ) {
                    Err(fault) => r matches Err(e) && e == fault && final(connection).context.sent@
                        == old(connection).context.sent@ && registered.spec_pending() == events,
                    Ok(bytes) => if bytes.len() > 0xFF_FFFF {
                        r matches Err(e) && e == Error::MessageTooLong
                            && final(connection).context.sent@ == old(connection).context.sent@
                            && registered.spec_pending() == events
                    } else {
                        match r {
                            Ok(()) => {
                                &&& final(connection).context.sent@ == old(connection).context.sent@
                                    + spec_message_bytes(
                                    spec_outbound(
                                        RTMPMessageTypeView::AMF3SharedObject(name),
                                        bytes,
                                    ),
                                    old(connection).context.outbound_chunk_size,
                                )
                                &&& registered.spec_pending() == Seq::<
                                    SharedObjectEventView,
                                >::empty()
                                &&& registered.flush_state == SharedObjectFlushState::FLUSHED
                                &&& registered.spec_data() == shared_object.spec_data()
                            },
                            Err(e) => e is Io && final(connection).context.sent@
                                == old(connection).context.sent@ && registered.spec_pending()
                                == events,
                        }
                    },
                }
            }),
    {
        let mut shared_object = shared_object;
        shared_object.dispatch_event(SharedObjectEvent::Use);
        let name = shared_object.name.clone();
        connection.context.add_shared_object(shared_object);
        proof {
            crate::context::lemma_position(connection.context.shared_objects@, name@);
        }
        let r = connection.send_shared_object(name);
        proof {
            crate::context::lemma_position(connection.context.shared_objects@, shared_object.name@);
            let at = spec_position(connection.context.shared_objects@, shared_object.name@);
            assert(connection.context.shared_objects@[at].name@ == shared_object.name@);
        }
        r
    }

    /// Sends the events of the object registered under the name that wait
    /// to be sent. Once they are sent, none waits any more and the object
    /// is flushed; where sending fails, they stay.
    pub fn flush<T: Transport, F: Fn(TransactionResult, AmfValue, Vec<AmfValue>)>(
        name: &str,
        connection: &mut NetConnection<T, F>,
    ) -> (r: Result<(), Error>)
        requires
            old(connection).context.wf(),
        ensures
            final(connection).context.wf(),
            final(connection).context.spec_same_session_but_objects(&old(connection).context),
            final(connection).context.received@ == old(connection).context.received@,
            spec_wrote(
                RTMPMessageTypeView::AMF3SharedObject(name@),
                &old(connection).context,
                &final(connection).context,
                r,
            ),
            match r {
                Ok(()) => {
                    let at = spec_position(old(connection).context.shared_objects@, name@);
                    &&& old(connection).context.spec_has_shared_object(name@)
                    &&& final(connection).context.shared_objects@.len()
                        == old(connection).context.shared_objects@.len()
                    &&& forall|i: int|
                        0 <= i < old(connection).context.shared_objects@.len() && i != at
                            ==> final(connection).context.shared_objects@[i]
                                == old(connection).context.shared_objects@[i]
                    &&& final(connection).context.shared_objects@[at].spec_flushed_from(
                        &old(connection).context.shared_objects@[at],
                    )
                },
                Err(_) => final(connection).context.shared_objects
                    == old(connection).context.shared_objects,
            },
    {
        connection.send_shared_object(String::from_str(name))
    }
}

} // verus!
