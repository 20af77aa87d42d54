//! The state of one session.

use crate::amf::{spec_views, AmfValue, AmfValueView};
use crate::chunk::state::{ChunkStreamState, ChunkStreamStateView};
use crate::errors::Error;
use crate::net_connection::packets::{
    SetPeerBandwidth, DEFAULT_CHUNK_SIZE, MAX_CHUNK_SIZE, MIN_CHUNK_SIZE,
};
use crate::net_connection::transaction_manager::{TransactionManager, TransactionResult};
use crate::shared_object::SharedObject;
use crate::transport::Transport;
use crate::utils::bytes::str_eq;
use std::collections::HashMap;
use vstd::prelude::*;

verus! {

broadcast use vstd::std_specs::hash::group_hash_axioms;

/// Which AMF version the commands of a connection are encoded in.
#[derive(Debug, Clone, Copy, PartialEq, Eq, Structural)]
pub enum ObjectEncoding {
    AMF0,
    AMF3,
}

impl ObjectEncoding {
    /// The encoding's number in the connect command.
    pub open spec fn spec_to_u32(self) -> u32 {
        match self {
            ObjectEncoding::AMF0 => 0,
            ObjectEncoding::AMF3 => 3,
        }
    }

    /// The encoding's number in the connect command.
    pub fn to_u32(self) -> (r: u32)
        ensures
            r == self.spec_to_u32(),
    {
        match self {
            ObjectEncoding::AMF0 => 0,
            ObjectEncoding::AMF3 => 3,
        }
    }
}

/// What the connect command tells the server about the client.
#[derive(Debug, PartialEq)]
pub struct ConnectionArgs {
    pub app: String,
    pub flash_ver: String,
    pub swf_url: String,
    pub tc_url: String,
    pub fpad: bool,
    pub audio_codecs: u32,
    pub video_codecs: u32,
    pub video_function: u32,
    pub page_url: String,
    pub object_encoding: ObjectEncoding,
    pub additional_args: Vec<AmfValue>,
}

/// The connect arguments, their strings and lists as sequences.
pub struct ConnectionArgsView {
    pub app: Seq<char>,
    pub flash_ver: Seq<char>,
    pub swf_url: Seq<char>,
    pub tc_url: Seq<char>,
    pub fpad: bool,
    pub audio_codecs: u32,
    pub video_codecs: u32,
    pub video_function: u32,
    pub page_url: Seq<char>,
    pub object_encoding: ObjectEncoding,
    pub additional_args: Seq<AmfValueView>,
}

impl View for ConnectionArgs {
    type V = ConnectionArgsView;

    open spec fn view(&self) -> ConnectionArgsView {
        ConnectionArgsView {
            app: self.app@,
            flash_ver: self.flash_ver@,
            swf_url: self.swf_url@,
            tc_url: self.tc_url@,
            fpad: self.fpad,
            audio_codecs: self.audio_codecs,
            video_codecs: self.video_codecs,
            video_function: self.video_function,
            page_url: self.page_url@,
            object_encoding: self.object_encoding,
            additional_args: spec_views(self.additional_args@),
        }
    }
}

/// Everything a session remembers between two calls.
pub struct NetConnectionContext<T: Transport, F> {
    pub transport: T,
    pub transaction_manager: TransactionManager<F>,
    pub connection_args: Option<ConnectionArgs>,
    /// The registered shared objects; of two with one name, the first counts.
    pub shared_objects: Vec<SharedObject>,
    pub last_ping_sent: Option<u32>,
    /// The largest payload that a chunk of the peer carries: 128 bytes until
    /// the peer announces another size.
    pub chunk_size: u32,
    /// The largest payload that a chunk of the client carries: 128 bytes
    /// until the client announces another size.
    pub outbound_chunk_size: u32,
    pub window_ack_size: Option<u32>,
    pub relative_timestamp: u32,
    /// The state of every chunk stream a chunk has arrived on.
    pub chunk_streams: HashMap<u32, ChunkStreamState>,
    /// The bandwidth limit the peer has set last.
    pub peer_bandwidth: Option<SetPeerBandwidth>,
    /// The window size announced to the peer last.
    pub announced_window_ack_size: Option<u32>,
    /// How many bytes have been read from the transport, modulo 2^32.
    pub bytes_received: u32,
    /// The value of `bytes_received` that was acknowledged last.
    pub bytes_acknowledged: u32,
    /// How many bytes the peer has acknowledged last.
    pub peer_acknowledged: Option<u32>,
    /// Every byte read from the transport so far, in order.
    pub received: Ghost<Seq<u8>>,
    /// Every byte written to the transport so far, in order.
    pub sent: Ghost<Seq<u8>>,
}

/// A context for a session that has not begun: chunks of 128 bytes, no
/// window, no shared objects, no call under way, nothing read or written.
pub fn allocate_net_connection_context<
    T: Transport,
    F: Fn(TransactionResult, AmfValue, Vec<AmfValue>),
>(transport: T) -> (r: NetConnectionContext<T, F>)
    ensures
        r.wf(),
        r.transport == transport,
        r.transaction_manager.last_id() == 1,
        r.transaction_manager.pending().dom() == Set::<u32>::empty(),
        r.connection_args is None,
        r.shared_objects@.len() == 0,
        r.last_ping_sent is None,
        r.chunk_size == DEFAULT_CHUNK_SIZE,
        r.outbound_chunk_size == DEFAULT_CHUNK_SIZE,
        r.window_ack_size is None,
        r.relative_timestamp == 0,
        r.spec_streams() == Map::<u32, ChunkStreamStateView>::empty(),
        r.peer_bandwidth is None,
        r.announced_window_ack_size is None,
        r.bytes_received == 0,
        r.bytes_acknowledged == 0,
        r.peer_acknowledged is None,
        r.received@ == Seq::<u8>::empty(),
        r.sent@ == Seq::<u8>::empty(),
{
    let r = NetConnectionContext {
        transport,
        transaction_manager: TransactionManager::new(),
        connection_args: None,
        shared_objects: Vec::new(),
        last_ping_sent: None,
        chunk_size: DEFAULT_CHUNK_SIZE,
        outbound_chunk_size: DEFAULT_CHUNK_SIZE,
        window_ack_size: None,
        relative_timestamp: 0,
        chunk_streams: HashMap::new(),
        peer_bandwidth: None,
        announced_window_ack_size: None,
        bytes_received: 0,
        bytes_acknowledged: 0,
        peer_acknowledged: None,
        received: Ghost(Seq::empty()),
        sent: Ghost(Seq::empty()),
    };
    assert(r.spec_streams() =~= Map::<u32, ChunkStreamStateView>::empty());
    r
}

/// The place of the first object of the given name in a list, or the length
/// of the list where none has it.
pub open spec fn spec_position(objects: Seq<SharedObject>, name: Seq<char>) -> int
    decreases objects.len(),
{
    if objects.len() == 0 || objects[0].name@ == name {
        0
    } else {
        1 + spec_position(objects.skip(1), name)
    }
}

/// What `spec_position` finds: no object before that place has the name,
/// and the object at it has, unless it is the end.
pub proof fn lemma_position(objects: Seq<SharedObject>, name: Seq<char>)
    ensures
        0 <= spec_position(objects, name) <= objects.len(),
        forall|i: int| 0 <= i < spec_position(objects, name) ==> objects[i].name@ != name,
        spec_position(objects, name) < objects.len() ==> objects[spec_position(
            objects,
            name,
        )].name@ == name,
    decreases objects.len(),
{
    if objects.len() == 0 || objects[0].name@ == name {
    } else {
        lemma_position(objects.skip(1), name);
        let k = spec_position(objects.skip(1), name);
        assert forall|i: int| 0 <= i < 1 + k implies objects[i].name@ != name by {
            if i > 0 {
                assert(objects.skip(1)[i - 1] == objects[i]);
            }
        }
        if 1 + k < objects.len() {
            assert(objects.skip(1)[k] == objects[1 + k]);
        }
    }
}

/// A place with no object of the name before it and one at it is the place
/// that `spec_position` finds.
pub proof fn lemma_position_is(objects: Seq<SharedObject>, name: Seq<char>, k: int)
    requires
        0 <= k <= objects.len(),
        forall|i: int| 0 <= i < k ==> objects[i].name@ != name,
        k < objects.len() ==> objects[k].name@ == name,
    ensures
        spec_position(objects, name) == k,
{
    lemma_position(objects, name);
}

impl<T: Transport, F: Fn(TransactionResult, AmfValue, Vec<AmfValue>)> NetConnectionContext<T, F> {
    /// The state of every chunk stream, by chunk stream id.
    pub open spec fn spec_streams(&self) -> Map<u32, ChunkStreamStateView> {
        Map::new(
            |id: u32| self.chunk_streams@.contains_key(id),
            |id: u32| self.chunk_streams@[id]@,
        )
    }

    /// Whether an object is registered under the name.
    pub open spec fn spec_has_shared_object(&self, name: Seq<char>) -> bool {
        spec_position(self.shared_objects@, name) < self.shared_objects@.len()
    }

    /// The two chunk sizes are sizes that may be announced; every chunk
    /// stream has an id that the wire can carry and a state that holds
    /// together; the transaction manager and the shared objects hold
    /// together.
    pub open spec fn wf(&self) -> bool {
        &&& MIN_CHUNK_SIZE <= self.chunk_size <= MAX_CHUNK_SIZE
        &&& MIN_CHUNK_SIZE <= self.outbound_chunk_size <= MAX_CHUNK_SIZE
        &&& self.transaction_manager.wf()
        &&& forall|id: u32| #[trigger]
            self.chunk_streams@.contains_key(id) ==> 2 <= id <= 65599
                && self.chunk_streams@[id]@.wf()
        &&& forall|i: int|
            0 <= i < self.shared_objects@.len() ==> (#[trigger] self.shared_objects@[i]).wf()
    }

    /// Whether two contexts differ in nothing but what reading and writing
    /// chunks touches: the transport, the two logs, the chunk streams and
    /// the count of bytes received.
    pub open spec fn spec_same_session(&self, other: &Self) -> bool {
        &&& self.transaction_manager == other.transaction_manager
        &&& self.connection_args == other.connection_args
        &&& self.shared_objects == other.shared_objects
        &&& self.last_ping_sent == other.last_ping_sent
        &&& self.chunk_size == other.chunk_size
        &&& self.outbound_chunk_size == other.outbound_chunk_size
        &&& self.window_ack_size == other.window_ack_size
        &&& self.relative_timestamp == other.relative_timestamp
        &&& self.peer_bandwidth == other.peer_bandwidth
        &&& self.announced_window_ack_size == other.announced_window_ack_size
        &&& self.bytes_acknowledged == other.bytes_acknowledged
        &&& self.peer_acknowledged == other.peer_acknowledged
    }

    /// Whether two contexts differ in nothing but what reading a message
    /// touches: the transport, the log of what was read, the chunk streams,
    /// the count of bytes received, and the shared objects.
    pub open spec fn spec_read_only(&self, other: &Self) -> bool {
        &&& self.transaction_manager == other.transaction_manager
        &&& self.connection_args == other.connection_args
        &&& self.last_ping_sent == other.last_ping_sent
        &&& self.chunk_size == other.chunk_size
        &&& self.outbound_chunk_size == other.outbound_chunk_size
        &&& self.window_ack_size == other.window_ack_size
        &&& self.relative_timestamp == other.relative_timestamp
        &&& self.peer_bandwidth == other.peer_bandwidth
        &&& self.announced_window_ack_size == other.announced_window_ack_size
        &&& self.bytes_acknowledged == other.bytes_acknowledged
        &&& self.peer_acknowledged == other.peer_acknowledged
        &&& self.sent@ == other.sent@
    }

    /// Whether two contexts differ in nothing but the transport, the log of
    /// what was sent, and the count of bytes acknowledged.
    pub open spec fn spec_same_but_acknowledged(&self, other: &Self) -> bool {
        &&& self.transaction_manager == other.transaction_manager
        &&& self.connection_args == other.connection_args
        &&& self.shared_objects == other.shared_objects
        &&& self.last_ping_sent == other.last_ping_sent
        &&& self.chunk_size == other.chunk_size
        &&& self.outbound_chunk_size == other.outbound_chunk_size
        &&& self.window_ack_size == other.window_ack_size
        &&& self.relative_timestamp == other.relative_timestamp
        &&& self.chunk_streams == other.chunk_streams
        &&& self.peer_bandwidth == other.peer_bandwidth
        &&& self.announced_window_ack_size == other.announced_window_ack_size
        &&& self.bytes_received == other.bytes_received
        &&& self.peer_acknowledged == other.peer_acknowledged
        &&& self.received@ == other.received@
    }

    /// Whether two contexts differ in nothing but what sending touches and
    /// the shared objects.
    pub open spec fn spec_same_session_but_objects(&self, other: &Self) -> bool {
        &&& self.transaction_manager == other.transaction_manager
        &&& self.connection_args == other.connection_args
        &&& self.last_ping_sent == other.last_ping_sent
        &&& self.chunk_size == other.chunk_size
        &&& self.outbound_chunk_size == other.outbound_chunk_size
        &&& self.window_ack_size == other.window_ack_size
        &&& self.relative_timestamp == other.relative_timestamp
        &&& self.peer_bandwidth == other.peer_bandwidth
        &&& self.announced_window_ack_size == other.announced_window_ack_size
        &&& self.bytes_acknowledged == other.bytes_acknowledged
        &&& self.peer_acknowledged == other.peer_acknowledged
    }

    /// Whether two contexts differ in nothing but the window.
    pub open spec fn spec_same_but_window(&self, other: &Self) -> bool {
        &&& self.transaction_manager == other.transaction_manager
        &&& self.connection_args == other.connection_args
        &&& self.shared_objects == other.shared_objects
        &&& self.last_ping_sent == other.last_ping_sent
        &&& self.chunk_size == other.chunk_size
        &&& self.outbound_chunk_size == other.outbound_chunk_size
        &&& self.relative_timestamp == other.relative_timestamp
        &&& self.chunk_streams == other.chunk_streams
        &&& self.peer_bandwidth == other.peer_bandwidth
        &&& self.announced_window_ack_size == other.announced_window_ack_size
        &&& self.bytes_received == other.bytes_received
        &&& self.bytes_acknowledged == other.bytes_acknowledged
        &&& self.peer_acknowledged == other.peer_acknowledged
        &&& self.transport == other.transport
        &&& self.received@ == other.received@
        &&& self.sent@ == other.sent@
    }

    /// Whether two contexts differ in nothing but the chunk size.
    pub open spec fn spec_same_but_chunk_size(&self, other: &Self) -> bool {
        &&& self.outbound_chunk_size == other.outbound_chunk_size
        &&& self.transaction_manager == other.transaction_manager
        &&& self.connection_args == other.connection_args
        &&& self.shared_objects == other.shared_objects
        &&& self.last_ping_sent == other.last_ping_sent
        &&& self.window_ack_size == other.window_ack_size
        &&& self.relative_timestamp == other.relative_timestamp
        &&& self.chunk_streams == other.chunk_streams
        &&& self.peer_bandwidth == other.peer_bandwidth
        &&& self.announced_window_ack_size == other.announced_window_ack_size
        &&& self.bytes_received == other.bytes_received
        &&& self.bytes_acknowledged == other.bytes_acknowledged
        &&& self.peer_acknowledged == other.peer_acknowledged
        &&& self.transport == other.transport
        &&& self.received@ == other.received@
        &&& self.sent@ == other.sent@
    }

    /// Whether two contexts differ in nothing but the transport, the log of
    /// what was sent, and the chunk size of the client.
    pub open spec fn spec_same_but_outbound(&self, other: &Self) -> bool {
        &&& self.spec_same_session_but_objects_and_sizes(other)
        &&& self.chunk_size == other.chunk_size
        &&& self.shared_objects == other.shared_objects
        &&& self.chunk_streams == other.chunk_streams
        &&& self.bytes_received == other.bytes_received
        &&& self.received@ == other.received@
    }

    /// Whether two contexts agree in what neither reading nor sending nor
    /// the shared objects nor the chunk sizes have a part in.
    pub open spec fn spec_same_session_but_objects_and_sizes(&self, other: &Self) -> bool {
        &&& self.transaction_manager == other.transaction_manager
        &&& self.connection_args == other.connection_args
        &&& self.last_ping_sent == other.last_ping_sent
        &&& self.window_ack_size == other.window_ack_size
        &&& self.relative_timestamp == other.relative_timestamp
        &&& self.peer_bandwidth == other.peer_bandwidth
        &&& self.announced_window_ack_size == other.announced_window_ack_size
        &&& self.bytes_acknowledged == other.bytes_acknowledged
        &&& self.peer_acknowledged == other.peer_acknowledged
    }

    /// Whether two contexts differ in nothing but what the peer has
    /// acknowledged.
    pub open spec fn spec_same_but_peer_acknowledged(&self, other: &Self) -> bool {
        &&& self.transaction_manager == other.transaction_manager
        &&& self.connection_args == other.connection_args
        &&& self.shared_objects == other.shared_objects
        &&& self.last_ping_sent == other.last_ping_sent
        &&& self.chunk_size == other.chunk_size
        &&& self.outbound_chunk_size == other.outbound_chunk_size
        &&& self.window_ack_size == other.window_ack_size
        &&& self.relative_timestamp == other.relative_timestamp
        &&& self.chunk_streams == other.chunk_streams
        &&& self.peer_bandwidth == other.peer_bandwidth
        &&& self.announced_window_ack_size == other.announced_window_ack_size
        &&& self.bytes_received == other.bytes_received
        &&& self.bytes_acknowledged == other.bytes_acknowledged
        &&& self.transport == other.transport
        &&& self.received@ == other.received@
        &&& self.sent@ == other.sent@
    }

    /// Whether two contexts differ in nothing but the transport.
    pub open spec fn spec_same_io_but_transport(&self, other: &Self) -> bool {
        &&& self.spec_same_session(other)
        &&& self.chunk_streams == other.chunk_streams
        &&& self.bytes_received == other.bytes_received
        &&& self.received@ == other.received@
        &&& self.sent@ == other.sent@
    }

    /// Whether this context is what making a call with the given callback
    /// makes of an earlier one, apart from what sending the call touches:
    /// the call has the next transaction id and waits under it.
    pub open spec fn spec_call_made(&self, earlier: &Self, callback: F) -> bool {
        let id = (earlier.transaction_manager.last_id() + 1) as u32;
        &&& self.transaction_manager.last_id() == id
        &&& self.transaction_manager.pending() == earlier.transaction_manager.pending().insert(
            id,
            crate::net_connection::transaction_manager::Transaction { result_callback: callback },
        )
        &&& self.connection_args == earlier.connection_args
        &&& self.shared_objects == earlier.shared_objects
        &&& self.last_ping_sent == earlier.last_ping_sent
        &&& self.chunk_size == earlier.chunk_size
        &&& self.outbound_chunk_size == earlier.outbound_chunk_size
        &&& self.window_ack_size == earlier.window_ack_size
        &&& self.relative_timestamp == earlier.relative_timestamp
        &&& self.chunk_streams == earlier.chunk_streams
        &&& self.peer_bandwidth == earlier.peer_bandwidth
        &&& self.announced_window_ack_size == earlier.announced_window_ack_size
        &&& self.bytes_received == earlier.bytes_received
        &&& self.bytes_acknowledged == earlier.bytes_acknowledged
        &&& self.peer_acknowledged == earlier.peer_acknowledged
        &&& self.received@ == earlier.received@
    }

    /// The bytes read between an earlier state of the context and this one.
    pub open spec fn spec_read_since(&self, earlier: &Self) -> Seq<u8> {
        self.received@.skip(earlier.received@.len() as int)
    }

    /// The bytes written between an earlier state of the context and this one.
    pub open spec fn spec_written_since(&self, earlier: &Self) -> Seq<u8> {
        self.sent@.skip(earlier.sent@.len() as int)
    }

    /// Reads exactly `size` bytes from the transport and puts them on
    /// record.
    pub fn read_data(&mut self, size: usize) -> (r: Result<Vec<u8>, Error>)
        ensures
            final(self).spec_same_session(old(self)),
            final(self).chunk_streams == old(self).chunk_streams,
            final(self).sent@ == old(self).sent@,
            match r {
                Ok(data) => data@.len() == size && final(self).received@ == old(self).received@
                    + data@ && final(self).bytes_received == (old(self).bytes_received + size)
                    % 0x1_0000_0000,
                Err(e) => e is Io && final(self).received@ == old(self).received@
                    && final(self).bytes_received == old(self).bytes_received,
            },
    {
        match self.transport.read_data(size) {
            Ok(data) => {
                proof {
                    self.received@ = self.received@ + data@;
                }
                self.bytes_received = ((self.bytes_received as u64 + (size as u64 % 0x1_0000_0000))
                    % 0x1_0000_0000) as u32;
                Ok(data)
            },
            Err(e) => Err(Error::Io(e)),
        }
    }

    /// Reads one byte from the transport.
    pub fn read_u8(&mut self) -> (r: Result<u8, Error>)
        ensures
            final(self).spec_same_session(old(self)),
            final(self).chunk_streams == old(self).chunk_streams,
            final(self).sent@ == old(self).sent@,
            match r {
                Ok(b) => final(self).received@ == old(self).received@.push(b)
                    && final(self).bytes_received == (old(self).bytes_received
                    + 1) % 0x1_0000_0000,
                Err(e) => e is Io && final(self).received@ == old(self).received@
                    && final(self).bytes_received == old(self).bytes_received,
            },
    {
        let data = self.read_data(1)?;
        assert(data@ =~= seq![data@[0]]);
        assert(old(self).received@ + seq![data@[0]] =~= old(self).received@.push(data@[0]));
        Ok(data[0])
    }

    /// Writes all of `data` to the transport and puts it on record.
    pub fn write_data(&mut self, data: Vec<u8>) -> (r: Result<(), Error>)
        ensures
            final(self).spec_same_session(old(self)),
            final(self).chunk_streams == old(self).chunk_streams,
            final(self).received@ == old(self).received@,
            final(self).bytes_received == old(self).bytes_received,
            match r {
                Ok(()) => final(self).sent@ == old(self).sent@ + data@,
                Err(e) => e is Io && final(self).sent@ == old(self).sent@,
            },
    {
        let ghost bytes = data@;
        match self.transport.write_data(data) {
            Ok(()) => {
                proof {
                    self.sent@ = self.sent@ + bytes;
                }
                Ok(())
            },
            Err(e) => Err(Error::Io(e)),
        }
    }

    /// Where the first object of the given name stands in the registry:
    /// behind the last object where none has the name.
    pub fn position_of_shared_object(&self, name: &str) -> (r: usize)
        ensures
            r == spec_position(self.shared_objects@, name@),
            r <= self.shared_objects@.len(),
    {
        self.position_of(name)
    }

    /// Where the first object of the given name stands in the registry.
    fn position_of(&self, name: &str) -> (r: usize)
        ensures
            r == spec_position(self.shared_objects@, name@),
            r <= self.shared_objects@.len(),
    {
        let mut i: usize = 0;
        while i < self.shared_objects.len() && !str_eq(self.shared_objects[i].name.as_str(), name)
            invariant
                i <= self.shared_objects@.len(),
                forall|j: int| 0 <= j < i ==> self.shared_objects@[j].name@ != name@,
            decreases self.shared_objects@.len() - i,
        {
            i += 1;
        }
        proof {
            lemma_position_is(self.shared_objects@, name@, i as int);
        }
        i
    }

    /// The object registered under the name.
    pub fn get_shared_object(&self, name: &str) -> (r: Result<&SharedObject, Error>)
        ensures
            match r {
                Ok(object) => self.spec_has_shared_object(name@) && *object
                    == self.shared_objects@[spec_position(self.shared_objects@, name@)],
                Err(e) => !self.spec_has_shared_object(name@) && e == Error::UnknownSharedObject,
            },
    {
        let i = self.position_of(name);
        if i < self.shared_objects.len() {
            Ok(&self.shared_objects[i])
        } else {
            Err(Error::UnknownSharedObject)
        }
    }

    /// The object registered under the name, to change it.
    pub fn get_shared_object_mut(&mut self, name: &str) -> (r: Option<&mut SharedObject>)
        ensures
            final(self).spec_same_io(old(self)),
            match r {
                Some(object) => {
                    let at = spec_position(old(self).shared_objects@, name@);
                    &&& old(self).spec_has_shared_object(name@)
                    &&& *object == old(self).shared_objects@[at]
                    &&& final(self).shared_objects@ == old(self).shared_objects@.update(
                        at,
                        *final(object),
                    )
                },
                None => !old(self).spec_has_shared_object(name@) && final(self).shared_objects
                    == old(self).shared_objects,
            },
    {
        let i = self.position_of(name);
        if i < self.shared_objects.len() {
            Some(&mut self.shared_objects[i])
        } else {
            None
        }
    }

    /// Registers an object. It takes the place of the object registered
    /// under its name, or the last place where there is none.
    pub fn add_shared_object(&mut self, shared_object: SharedObject)
        requires
            old(self).wf(),
            shared_object.wf(),
        ensures
            final(self).wf(),
            final(self).spec_has_shared_object(shared_object.name@),
            final(self).shared_objects@ == if old(self).spec_has_shared_object(
                shared_object.name@,
            ) {
                old(self).shared_objects@.update(
                    spec_position(old(self).shared_objects@, shared_object.name@),
                    shared_object,
                )
            } else {
                old(self).shared_objects@.push(shared_object)
            },
            final(self).spec_position_kept(old(self), shared_object.name@),
            final(self).spec_same_io(old(self)),
    {
        let i = self.position_of(shared_object.name.as_str());
        proof {
            lemma_position(self.shared_objects@, shared_object.name@);
        }
        if i < self.shared_objects.len() {
            self.shared_objects[i] = shared_object;
        } else {
            self.shared_objects.push(shared_object);
        }
        proof {
            lemma_position_is(self.shared_objects@, shared_object.name@, i as int);
        }
    }

    /// Whether the first object of the given name stands where it stood in
    /// an earlier state of the context.
    pub open spec fn spec_position_kept(&self, earlier: &Self, name: Seq<char>) -> bool {
        spec_position(self.shared_objects@, name) == spec_position(earlier.shared_objects@, name)
    }

    /// Whether two contexts differ in nothing but the registry of shared
    /// objects.
    pub open spec fn spec_same_io(&self, other: &Self) -> bool {
        &&& self.transport == other.transport
        &&& self.transaction_manager == other.transaction_manager
        &&& self.connection_args == other.connection_args
        &&& self.last_ping_sent == other.last_ping_sent
        &&& self.chunk_size == other.chunk_size
        &&& self.outbound_chunk_size == other.outbound_chunk_size
        &&& self.window_ack_size == other.window_ack_size
        &&& self.relative_timestamp == other.relative_timestamp
        &&& self.chunk_streams == other.chunk_streams
        &&& self.peer_bandwidth == other.peer_bandwidth
        &&& self.announced_window_ack_size == other.announced_window_ack_size
        &&& self.bytes_received == other.bytes_received
        &&& self.bytes_acknowledged == other.bytes_acknowledged
        &&& self.peer_acknowledged == other.peer_acknowledged
        &&& self.received@ == other.received@
        &&& self.sent@ == other.sent@
    }

    /// Takes the object registered under the name out of the registry.
    pub fn remove_shared_object(&mut self, name: &str)
        requires
            old(self).wf(),
        ensures
            final(self).wf(),
            final(self).shared_objects@ == if old(self).spec_has_shared_object(name@) {
                old(self).shared_objects@.remove(spec_position(old(self).shared_objects@, name@))
            } else {
                old(self).shared_objects@
            },
            final(self).spec_same_io(old(self)),
    {
        let i = self.position_of(name);
        if i < self.shared_objects.len() {
            self.shared_objects.remove(i);
        }
    }

    /// Whether an object is registered under the name.
    pub fn has_shared_object(&self, name: &str) -> (r: bool)
        ensures
            r == self.spec_has_shared_object(name@),
    {
        self.position_of(name) < self.shared_objects.len()
    }
}

} // verus!
