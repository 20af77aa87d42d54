//! The connection: message types, their codecs, and the dispatcher.

pub mod packets;
pub mod reader;
pub mod transaction_manager;
pub mod user_control_messages;
pub mod writer;

use crate::amf::number::{number_from_u32, spec_number_from_u32};
use crate::amf::{clone_values, spec_views, AmfProperty, AmfValue, AmfValueView};
use crate::chunk::reader::{spec_read_message, MessageStep};
use crate::context::{
    allocate_net_connection_context, spec_position, ConnectionArgs, ConnectionArgsView,
    NetConnectionContext, ObjectEncoding,
};
use crate::errors::Error;
use crate::handshake::{spec_is_client_hello, RTMPHandshake};
use crate::net_connection::packets::{
    AMFCommandMessage, AMFCommandMessageView, Acknowledgement, RTMPMessageType,
    RTMPMessageTypeView, RTMPMessageView, SetChunkSize, SetPeerBandwidth, UserControlMessage,
    WindowAcknowledgementSize, MAX_CHUNK_SIZE, MIN_CHUNK_SIZE,
};
use crate::net_connection::reader::{spec_classified, RTMPReader};
use crate::net_connection::transaction_manager::{accepts_every_answer, TransactionResult};
use crate::net_connection::writer::{spec_wrote, RTMPWriter};
use crate::shared_object::{
    spec_apply_events, spec_event_views, SharedObject, SharedObjectEventView,
    SharedObjectFlushState,
};
use crate::transport::Transport;
use crate::utils::bytes::str_eq;
use crate::utils::url::{parse_tc_url, spec_tc_url, url_parts, TcUrl, TcUrlView};
use vstd::prelude::*;
use vstd::string::*;

verus! {

/// The Flash version that the client reports.
pub const FLASH_VERSION: &'static str = "WIN 32,0,0,465";

/// The audio codecs that the client reports.
pub const AUDIO_CODECS: u32 = 3575;

/// The video codecs that the client reports.
pub const VIDEO_CODECS: u32 = 252;

/// The video function that the client reports.
pub const VIDEO_FUNCTION: u32 = 1;

/// The capabilities that the client reports.
pub const CAPABILITIES: u32 = 239;

/// The connect arguments for a connection URL: the application and the URL
/// are the URL's, the rest is what this client always reports.
pub open spec fn spec_connection_args(url: TcUrlView) -> ConnectionArgsView {
    ConnectionArgsView {
        app: url.app,
        flash_ver: FLASH_VERSION@,
        swf_url: Seq::empty(),
        tc_url: url.full_url,
        fpad: false,
        audio_codecs: AUDIO_CODECS,
        video_codecs: VIDEO_CODECS,
        video_function: VIDEO_FUNCTION,
        page_url: Seq::empty(),
        object_encoding: ObjectEncoding::AMF0,
        additional_args: Seq::empty(),
    }
}

/// The command object of the connect command: the eleven properties that
/// tell the server about the client, in the order they are sent.
pub open spec fn spec_connect_object(args: ConnectionArgsView) -> AmfValueView {
    AmfValueView::Object(
        seq![
            ("videoCodecs"@, AmfValueView::Number(spec_number_from_u32(args.video_codecs))),
            ("audioCodecs"@, AmfValueView::Number(spec_number_from_u32(args.audio_codecs))),
            ("flashVer"@, AmfValueView::String(args.flash_ver)),
            ("app"@, AmfValueView::String(args.app)),
            ("tcUrl"@, AmfValueView::String(args.tc_url)),
            ("videoFunction"@, AmfValueView::Number(spec_number_from_u32(args.video_function))),
            ("capabilities"@, AmfValueView::Number(spec_number_from_u32(CAPABILITIES))),
            ("pageUrl"@, AmfValueView::String(args.page_url)),
            ("fpad"@, AmfValueView::Bool(args.fpad)),
            ("swfUrl"@, AmfValueView::String(args.swf_url)),
            (
                "objectEncoding"@,
                AmfValueView::Number(spec_number_from_u32(args.object_encoding.spec_to_u32())),
            ),
        ],
    )
}

/// The connect command for the given arguments under the given
/// transaction id.
pub open spec fn spec_connect_command(
    args: ConnectionArgsView,
    transaction_id: u32,
) -> AMFCommandMessageView {
    AMFCommandMessageView {
        procedure_name: "connect"@,
        transaction_id,
        command_object: Some(spec_connect_object(args)),
        optional_arguments: args.additional_args,
    }
}

/// Whether a context is what connecting makes of another once the
/// transport is open, and `r` the result.
///
/// On success the server's answer to the hello has been read whole, the
/// hello, the packet that answers the server and the connect command have
/// been sent, in that order, and the call waits under the next transaction
/// id with the callback. On a failure:
/// - of the transport, a part of that has been sent: nothing, the hello,
///   or the hello and the answer;
/// - of the handshake, the hello has been sent and the error reports the
///   first fault of the server's answer; no call has been made;
/// - of the encoding, the handshake is done, and the connect command has
///   no encoding or one of 2^24 bytes or more; the call has its id and
///   waits.
pub open spec fn spec_connect_outcome<T: Transport, F: Fn(TransactionResult, AmfValue, Vec<AmfValue>)>(
    url: TcUrlView,
    callback: F,
    before: &NetConnectionContext<T, F>,
    after: &NetConnectionContext<T, F>,
    r: Result<(), Error>,
) -> bool {
    let id = (before.transaction_manager.last_id() + 1) as u32;
    let read = after.spec_read_since(before);
    let typed = RTMPMessageTypeView::AMF0Command(
        spec_connect_command(spec_connection_args(url), id),
    );
    let hello = crate::handshake::spec_client_hello_bytes();
    let shaken = before.sent@ + hello + crate::handshake::spec_ack_bytes(read);
    let payload = crate::net_connection::writer::spec_payload(typed, after);
    let called = after.transaction_manager.last_id() == id
        && after.transaction_manager.pending() == before.transaction_manager.pending().insert(
        id,
        crate::net_connection::transaction_manager::Transaction { result_callback: callback },
    );
    let answered = read.len() == crate::handshake::SERVER_HELLO_ACK_SIZE;
    &&& after.received@ == before.received@ + read
    &&& match r {
        Ok(()) => {
            &&& answered
            &&& called
            &&& payload matches Ok(bytes) && bytes.len() <= 0xFF_FFFF && after.sent@ == shaken
                + crate::chunk::writer::spec_message_bytes(
                crate::net_connection::writer::spec_outbound(typed, bytes),
                before.outbound_chunk_size,
            )
        },
        Err(e) => {
            ||| e is Io && after.sent@ == before.sent@
            ||| e is Io && after.sent@ == before.sent@ + hello
            ||| e is Io && answered && after.sent@ == shaken
            ||| crate::handshake::spec_handshake_refused(e, read)
                && after.sent@ == before.sent@ + hello
                && after.transaction_manager == before.transaction_manager
            ||| e == Error::AmfEncode && answered && after.sent@ == shaken && called
                && payload == Err::<Seq<u8>, Error>(Error::AmfEncode)
            ||| e == Error::MessageTooLong && answered && after.sent@ == shaken && called
                && (payload matches Ok(bytes) && bytes.len() > 0xFF_FFFF)
        },
    }
}

/// What the client sends in answer to a message, if anything: a ping
/// response with the timestamp of a ping request; the window size of a
/// bandwidth limit, unless it is the one announced last.
pub open spec fn spec_reply<T: Transport, F: Fn(TransactionResult, AmfValue, Vec<AmfValue>)>(
    typed: RTMPMessageTypeView,
    before: &NetConnectionContext<T, F>,
) -> Option<RTMPMessageTypeView> {
    match typed {
        RTMPMessageTypeView::UserControlMessage(UserControlMessage::PingRequest { timestamp }) => {
            Some(
                RTMPMessageTypeView::UserControlMessage(
                    UserControlMessage::PingResponse { timestamp },
                ),
            )
        },
        RTMPMessageTypeView::SetPeerBandwidth(m) => if before.announced_window_ack_size != Some(
            m.size,
        ) {
            Some(
                RTMPMessageTypeView::WindowAcknowledgementSize(
                    WindowAcknowledgementSize { size: m.size },
                ),
            )
        } else {
            None
        },
        _ => None,
    }
}

/// How a command that answers a call ends the call: `_result` and `_error`
/// are answers, every other procedure name is a call of the server.
pub open spec fn spec_outcome(procedure_name: Seq<char>) -> Option<TransactionResult> {
    if procedure_name == "_result"@ {
        Some(TransactionResult::Result)
    } else if procedure_name == "_error"@ {
        Some(TransactionResult::Error)
    } else {
        None
    }
}

/// Whether acknowledging is due: the server has announced a window, and
/// the bytes received since the last acknowledgement fill it.
pub open spec fn spec_acknowledgement_due<
    T: Transport,
    F: Fn(TransactionResult, AmfValue, Vec<AmfValue>),
>(context: &NetConnectionContext<T, F>) -> bool {
    context.window_ack_size matches Some(window) && spec_received_since_acknowledgement(context)
        >= window
}

/// How many bytes have been received since the last acknowledgement; the
/// count of bytes received wraps round at 2^32.
pub open spec fn spec_received_since_acknowledgement<
    T: Transport,
    F: Fn(TransactionResult, AmfValue, Vec<AmfValue>),
>(context: &NetConnectionContext<T, F>) -> int {
    (context.bytes_received - context.bytes_acknowledged) % 0x1_0000_0000
}

/// What closing the connection makes of what the transport's `disconnect`
/// gave: success as it is, a failure as an I/O error.
pub open spec fn spec_disconnected(closed: Result<(), std::io::Error>) -> Result<(), Error> {
    match closed {
        Ok(()) => Ok(()),
        Err(e) => Err(Error::Io(e)),
    }
}

/// A connection to a server.
pub struct NetConnection<T: Transport, F> {
    pub context: NetConnectionContext<T, F>,
}

impl<T: Transport, F: Fn(TransactionResult, AmfValue, Vec<AmfValue>)> NetConnection<T, F> {
    /// A connection over the given transport that has not begun.
    pub fn new(transport: T) -> (r: Self)
        ensures
            r.context.wf(),
            r.context.transport == transport,
            r.context.chunk_size == crate::net_connection::packets::DEFAULT_CHUNK_SIZE,
            r.context.outbound_chunk_size == crate::net_connection::packets::DEFAULT_CHUNK_SIZE,
            r.context.connection_args is None,
            r.context.shared_objects@.len() == 0,
            r.context.window_ack_size is None,
            r.context.transaction_manager.last_id() == 1,
            r.context.received@ == Seq::<u8>::empty(),
            r.context.sent@ == Seq::<u8>::empty(),
    {
        NetConnection { context: allocate_net_connection_context(transport) }
    }

    /// The state of the session, to change it.
    pub fn get_context(&mut self) -> (r: &mut NetConnectionContext<T, F>)
        ensures
            *r == old(self).context,
            *final(r) == final(self).context,
    {
        &mut self.context
    }

    /// The connect arguments for a connection URL.
    pub fn connection_args(tc_url: TcUrl) -> (r: ConnectionArgs)
        ensures
            r@ == spec_connection_args(tc_url@),
    {
        let r = ConnectionArgs {
            app: tc_url.app,
            flash_ver: String::from_str(FLASH_VERSION),
            swf_url: String::new(),
            tc_url: tc_url.full_url,
            fpad: false,
            audio_codecs: AUDIO_CODECS,
            video_codecs: VIDEO_CODECS,
            video_function: VIDEO_FUNCTION,
            page_url: String::new(),
            object_encoding: ObjectEncoding::AMF0,
            additional_args: Vec::new(),
        };
        assert(r@.additional_args =~= Seq::<AmfValueView>::empty());
        r
    }

    /// A property of a command object.
    fn property(name: &str, value: AmfValue) -> (r: AmfProperty)
        ensures
            r@ == (name@, value@),
    {
        AmfProperty { name: String::from_str(name), value }
    }

    /// The connect command for the given arguments under the given
    /// transaction id.
    pub fn connect_command(args: &ConnectionArgs, transaction_id: u32) -> (r: AMFCommandMessage)
        ensures
            r@ == spec_connect_command(args@, transaction_id),
    {
        let mut properties: Vec<AmfProperty> = Vec::new();
        properties.push(
            Self::property("videoCodecs", AmfValue::Number(number_from_u32(args.video_codecs))),
        );
        properties.push(
            Self::property("audioCodecs", AmfValue::Number(number_from_u32(args.audio_codecs))),
        );
        properties.push(Self::property("flashVer", AmfValue::String(args.flash_ver.clone())));
        properties.push(Self::property("app", AmfValue::String(args.app.clone())));
        properties.push(Self::property("tcUrl", AmfValue::String(args.tc_url.clone())));
        properties.push(
            Self::property("videoFunction", AmfValue::Number(number_from_u32(args.video_function))),
        );
        properties.push(
            Self::property("capabilities", AmfValue::Number(number_from_u32(CAPABILITIES))),
        );
        properties.push(Self::property("pageUrl", AmfValue::String(args.page_url.clone())));
        properties.push(Self::property("fpad", AmfValue::Bool(args.fpad)));
        properties.push(Self::property("swfUrl", AmfValue::String(args.swf_url.clone())));
        properties.push(
            Self::property(
                "objectEncoding",
                AmfValue::Number(number_from_u32(args.object_encoding.to_u32())),
            ),
        );
        let command_object = AmfValue::Object(properties);
        proof {
            assert(command_object@->Object_0 =~= spec_connect_object(args@)->Object_0);
        }
        AMFCommandMessage {
            procedure_name: String::from_str("connect"),
            transaction_id,
            command_object: Some(command_object),
            optional_arguments: clone_values(&args.additional_args),
        }
    }

    /// Sends the connect command for the connect arguments on record, under
    /// a new transaction id, and keeps the callback for the answer.
    ///
    /// Where no arguments are on record or no transaction id is left,
    /// nothing is sent and no call is made.
    pub fn send_connect_request(&mut self, callback: F) -> (r: Result<(), Error>)
        requires
            old(self).context.wf(),
            accepts_every_answer(callback),
        ensures
            final(self).context.wf(),
            match old(self).context.connection_args {
                None => r matches Err(e) && e == Error::NotConnected && final(self).context.sent@
                    == old(self).context.sent@ && final(self).context.transaction_manager
                        == old(self).context.transaction_manager,
                Some(args) => if old(self).context.transaction_manager.last_id() == u32::MAX {
                    r matches Err(e) && e == Error::TransactionIdsExhausted
                        && final(self).context.sent@ == old(self).context.sent@
                        && final(self).context.transaction_manager
                        == old(self).context.transaction_manager
                } else {
                    &&& final(self).context.spec_call_made(&old(self).context, callback)
                    &&& spec_wrote(
                        RTMPMessageTypeView::AMF0Command(
                            spec_connect_command(
                                args@,
                                (old(self).context.transaction_manager.last_id() + 1) as u32,
                            ),
                        ),
                        &old(self).context,
                        &final(self).context,
                        r,
                    )
                },
            },
    {
        if self.context.connection_args.is_none() {
            return Err(Error::NotConnected);
        }
        if !self.context.transaction_manager.has_free_id() {
            return Err(Error::TransactionIdsExhausted);
        }
        let transaction_id = self.context.transaction_manager.initialize_transaction(callback);
        let command = match &self.context.connection_args {
            Some(connection_args) => Self::connect_command(connection_args, transaction_id),
            None => { return Err(Error::NotConnected); },
        };
        let ghost middle = self.context;
        let r = RTMPWriter::write(RTMPMessageType::AMF0Command(command), &mut self.context);
        proof {
            assert(crate::net_connection::writer::spec_payload(
                RTMPMessageTypeView::AMF0Command(command@),
                &middle,
            ) == crate::net_connection::writer::spec_payload(
                RTMPMessageTypeView::AMF0Command(command@),
                &old(self).context,
            ));
        }
        r
    }

    /// Connects: parses the URL, opens the transport to its host and port,
    /// runs the handshake, and sends the connect command; the callback is
    /// kept for the answer to it.
    ///
    /// Nothing is sent for a URL that is refused or when no transaction id
    /// is left. Else the transport's `connect` is called once, with the
    /// host and the port of the URL; where it fails, its failure is the
    /// result and nothing is sent; where it succeeds, `spec_connect_outcome`
    /// says what follows.
    pub fn connect(&mut self, tc_url: &str, callback: F) -> (r: Result<(), Error>)
        requires
            old(self).context.wf(),
            accepts_every_answer(callback),
        ensures
            final(self).context.wf(),
            match url_parts(tc_url@) {
                None => r matches Err(e) && e == Error::InvalidUrl && final(self).context.sent@
                    == old(self).context.sent@,
                Some(parts) => match spec_tc_url(tc_url@, parts) {
                    Err(fault) => r matches Err(e) && e == fault && final(self).context.sent@
                        == old(self).context.sent@,
                    Ok(url) => if old(self).context.transaction_manager.last_id() == u32::MAX {
                        r matches Err(e) && e == Error::TransactionIdsExhausted
                            && final(self).context.sent@ == old(self).context.sent@
                    } else {
                        &&& final(self).context.connection_args matches Some(args) && args@
                            == spec_connection_args(url)
                        &&& exists|m: &mut T, host: String, connected: Result<(), std::io::Error>|
                            {
                                &&& mut_ref_current(m) == old(self).context.transport
                                &&& host@ == url.host
                                &&& #[trigger] call_ensures(T::connect, (m, host, url.port), connected)
                                &&& match connected {
                                    Err(fault) => {
                                        &&& r == Err::<(), Error>(Error::Io(fault))
                                        &&& final(self).context.transport == mut_ref_future(m)
                                        &&& final(self).context.sent@ == old(self).context.sent@
                                        &&& final(self).context.received@
                                            == old(self).context.received@
                                        &&& final(self).context.transaction_manager
                                            == old(self).context.transaction_manager
                                    },
                                    Ok(()) => spec_connect_outcome(
                                        url,
                                        callback,
                                        &old(self).context,
                                        &final(self).context,
                                        r,
                                    ),
                                }
                            }
                    },
                },
            },
    {
        let tc_url = parse_tc_url(tc_url)?;
        if !self.context.transaction_manager.has_free_id() {
            return Err(Error::TransactionIdsExhausted);
        }
        let host = tc_url.host.clone();
        let port = tc_url.port;
        let ghost url = tc_url@;
        self.context.connection_args = Some(Self::connection_args(tc_url));
        let ghost host_given = host;
        let connected = self.context.transport.connect(host, port);
        proof {
            assert(host_given@ == url.host);
            assert(port == url.port);
            assert(exists|m: &mut T|
                mut_ref_current(m) == old(self).context.transport && mut_ref_future(m)
                    == self.context.transport && #[trigger] call_ensures(
                    T::connect,
                    (m, host_given, port),
                    connected,
                ));
        }
        match connected {
            Ok(()) => {},
            Err(e) => { return Err(Error::Io(e)); },
        }
        let ghost before_handshake = self.context;
        let mut handshake = RTMPHandshake::new();
        let shaken = handshake.do_handshake(&mut self.context);
        proof {
            assert(self.context.spec_read_since(&old(self).context)
                =~= self.context.spec_read_since(&before_handshake));
        }
        match shaken {
            Ok(()) => {},
            Err(e) => {
                proof {
                    if !(e is Io) {
                        let hello = handshake.spec_client_hello()->0;
                        assert(spec_is_client_hello(hello));
                        assert(crate::handshake::spec_handshake_refused(
                            e,
                            self.context.spec_read_since(&old(self).context),
                        ));
                    }
                    assert(spec_connect_outcome(
                        url,
                        callback,
                        &old(self).context,
                        &self.context,
                        Err(e),
                    ));
                }
                return Err(e);
            },
        }
        let ghost after_handshake = self.context;
        let r = self.send_connect_request(callback);
        proof {
            let id = (old(self).context.transaction_manager.last_id() + 1) as u32;
            let typed = RTMPMessageTypeView::AMF0Command(
                spec_connect_command(spec_connection_args(url), id),
            );
            assert(crate::net_connection::writer::spec_payload(typed, &after_handshake)
                == crate::net_connection::writer::spec_payload(typed, &self.context));
            assert(self.context.spec_read_since(&old(self).context)
                =~= after_handshake.spec_read_since(&before_handshake));
            assert(spec_connect_outcome(url, callback, &old(self).context, &self.context, r));
        }
        r
    }

    /// Sends the events of a registered shared object that wait to be
    /// sent. Once they are sent, none waits any more and the object is
    /// flushed; where sending fails, they stay.
    pub fn send_shared_object(&mut self, name: String) -> (r: Result<(), Error>)
        requires
            old(self).context.wf(),
        ensures
            final(self).context.wf(),
            final(self).context.spec_same_session_but_objects(&old(self).context),
            final(self).context.chunk_streams == old(self).context.chunk_streams,
            final(self).context.received@ == old(self).context.received@,
            final(self).context.bytes_received == old(self).context.bytes_received,
            spec_wrote(
                RTMPMessageTypeView::AMF3SharedObject(name@),
                &old(self).context,
                &final(self).context,
                r,
            ),
            match r {
                Ok(()) => {
                    let at = spec_position(old(self).context.shared_objects@, name@);
                    &&& old(self).context.spec_has_shared_object(name@)
                    &&& final(self).context.shared_objects@.len()
                        == old(self).context.shared_objects@.len()
                    &&& forall|i: int|
                        0 <= i < old(self).context.shared_objects@.len() && i != at
                            ==> final(self).context.shared_objects@[i]
                            == old(self).context.shared_objects@[i]
                    &&& final(self).context.shared_objects@[at].spec_flushed_from(
                        &old(self).context.shared_objects@[at],
                    )
                },
                Err(_) => final(self).context.shared_objects == old(self).context.shared_objects,
            },
    {
        let ghost at_name = name@;
        let at = self.context.position_of_shared_object(name.as_str());
        let r = RTMPWriter::write(RTMPMessageType::AMF3SharedObject(name), &mut self.context);
        match r {
            Ok(()) => {
                proof {
                    crate::context::lemma_position(self.context.shared_objects@, at_name);
                }
                let mut shared_object = self.context.shared_objects.remove(at);
                shared_object.clear_events();
                self.context.shared_objects.insert(at, shared_object);
                Ok(())
            },
            Err(e) => Err(e),
        }
    }

    /// Takes note of the window that the server has announced.
    fn process_window_ack_size(&mut self, window_ack_size: WindowAcknowledgementSize)
        ensures
            final(self).context.window_ack_size == Some(window_ack_size.size),
            final(self).context.spec_same_but_window(&old(self).context),
    {
        self.context.window_ack_size = Some(window_ack_size.size);
    }

    /// Takes the chunk size that the server has announced: the chunks of the
    /// server carry that much from now on. What the client sends is not
    /// touched.
    fn process_set_chunk_size(&mut self, set_chunk_size: SetChunkSize) -> (r: Result<(), Error>)
        ensures
            final(self).context.spec_same_but_chunk_size(&old(self).context),
            if MIN_CHUNK_SIZE <= set_chunk_size.size <= MAX_CHUNK_SIZE {
                r is Ok && final(self).context.chunk_size == set_chunk_size.size
            } else {
                r matches Err(e) && e == Error::InvalidChunkSize(set_chunk_size.size)
                    && final(self).context.chunk_size == old(self).context.chunk_size
            },
    {
        if set_chunk_size.size < MIN_CHUNK_SIZE || set_chunk_size.size > MAX_CHUNK_SIZE {
            return Err(Error::InvalidChunkSize(set_chunk_size.size));
        }
        self.context.chunk_size = set_chunk_size.size;
        Ok(())
    }

    /// Takes note of how much the server has received.
    fn process_acknowledgement(&mut self, acknowledgement: Acknowledgement)
        ensures
            final(self).context.peer_acknowledged == Some(acknowledgement.sequence_number),
            final(self).context.spec_same_but_peer_acknowledged(&old(self).context),
    {
        self.context.peer_acknowledged = Some(acknowledgement.sequence_number);
    }

    /// Takes note of a bandwidth limit, and announces its size as the
    /// window unless that size is the one announced last.
    fn process_set_peer_bandwidth(&mut self, peer_bandwidth: SetPeerBandwidth) -> (r: Result<
        (),
        Error,
    >)
        requires
            old(self).context.wf(),
        ensures
            final(self).context.wf(),
            spec_dispatched(
                RTMPMessageType::SetPeerBandwidth(peer_bandwidth),
                &old(self).context,
                &final(self).context,
                r,
            ),
    {
        self.context.peer_bandwidth = Some(peer_bandwidth);
        let announce = match self.context.announced_window_ack_size {
            Some(size) => size != peer_bandwidth.size,
            None => true,
        };
        if announce {
            let ghost middle = self.context;
            let reply = RTMPMessageType::WindowAcknowledgementSize(
                WindowAcknowledgementSize { size: peer_bandwidth.size },
            );
            let r = RTMPWriter::write(reply, &mut self.context);
            proof {
                assert(crate::net_connection::writer::spec_payload(reply@, &middle)
                    == crate::net_connection::writer::spec_payload(reply@, &old(self).context));
            }
            match r {
                Ok(()) => {
                    self.context.announced_window_ack_size = Some(peer_bandwidth.size);
                    Ok(())
                },
                Err(e) => Err(e),
            }
        } else {
            Ok(())
        }
    }

    /// Answers a ping request with a ping response of the same timestamp;
    /// every other event is taken note of and nothing more.
    fn process_user_control_message(&mut self, user_control_message: UserControlMessage) -> (r:
        Result<(), Error>)
        requires
            old(self).context.wf(),
        ensures
            final(self).context.wf(),
            spec_dispatched(
                RTMPMessageType::UserControlMessage(user_control_message),
                &old(self).context,
                &final(self).context,
                r,
            ),
    {
        match user_control_message {
            UserControlMessage::PingRequest { timestamp } => {
                let response = UserControlMessage::PingResponse { timestamp };
                RTMPWriter::write(RTMPMessageType::UserControlMessage(response), &mut self.context)
            },
            _ => Ok(()),
        }
    }

    /// Ends the call that a `_result` or an `_error` answers: the callback
    /// of the call gets the answer, and the call is forgotten. An answer to
    /// no call is passed over. Any other command is a call of the server,
    /// which this client does not take.
    fn process_amf0_command(&mut self, command: AMFCommandMessage) -> (r: Result<(), Error>)
        requires
            old(self).context.wf(),
        ensures
            final(self).context.wf(),
            spec_dispatched(
                RTMPMessageType::AMF0Command(command),
                &old(self).context,
                &final(self).context,
                r,
            ),
    {
        let result = if str_eq(command.procedure_name.as_str(), "_result") {
            TransactionResult::Result
        } else if str_eq(command.procedure_name.as_str(), "_error") {
            TransactionResult::Error
        } else {
            return Err(Error::UnsupportedCommand);
        };
        let transaction_id = command.transaction_id;
        match self.context.transaction_manager.finalize_transaction(transaction_id, result, command) {
            Ok(()) => Ok(()),
            Err(_) => Ok(()),
        }
    }

    /// Applies the events that a registered shared object has received.
    fn process_shared_object(&mut self, name: String) -> (r: Result<(), Error>)
        requires
            old(self).context.wf(),
        ensures
            final(self).context.wf(),
            spec_dispatched(
                RTMPMessageType::AMF3SharedObject(name),
                &old(self).context,
                &final(self).context,
                r,
            ),
    {
        let at = self.context.position_of_shared_object(name.as_str());
        if at >= self.context.shared_objects.len() {
            return Err(Error::UnknownSharedObject);
        }
        proof {
            crate::context::lemma_position(self.context.shared_objects@, name@);
        }
        let mut shared_object = self.context.shared_objects.remove(at);
        shared_object.process_events();
        self.context.shared_objects.insert(at, shared_object);
        Ok(())
    }

    /// Acts on a typed message.
    pub fn dispatch(&mut self, message: RTMPMessageType) -> (r: Result<(), Error>)
        requires
            old(self).context.wf(),
        ensures
            final(self).context.wf(),
            spec_dispatched(message, &old(self).context, &final(self).context, r),
    {
        match message {
            RTMPMessageType::SetChunkSize(set_chunk_size) => self.process_set_chunk_size(
                set_chunk_size,
            ),
            RTMPMessageType::Acknowledgement(acknowledgement) => {
                self.process_acknowledgement(acknowledgement);
                Ok(())
            },
            RTMPMessageType::WindowAcknowledgementSize(window_ack_size) => {
                self.process_window_ack_size(window_ack_size);
                Ok(())
            },
            RTMPMessageType::SetPeerBandwidth(peer_bandwidth) => self.process_set_peer_bandwidth(
                peer_bandwidth,
            ),
            RTMPMessageType::UserControlMessage(user_control_message) => {
                self.process_user_control_message(user_control_message)
            },
            RTMPMessageType::AMF0Command(command) => self.process_amf0_command(command),
            RTMPMessageType::AMF3SharedObject(shared_object) => self.process_shared_object(
                shared_object,
            ),
        }
    }

    /// Announces a chunk size to the server and sends chunks of that size
    /// from then on. A size outside 1 ..= 2^31 - 1 is refused; where the
    /// announcement cannot be sent, the size stays as it is.
    pub fn set_chunk_size(&mut self, size: u32) -> (r: Result<(), Error>)
        requires
            old(self).context.wf(),
        ensures
            final(self).context.wf(),
            final(self).context.spec_same_but_outbound(&old(self).context),
            if MIN_CHUNK_SIZE <= size <= MAX_CHUNK_SIZE {
                &&& spec_wrote(
                    RTMPMessageTypeView::SetChunkSize(SetChunkSize { size }),
                    &old(self).context,
                    &final(self).context,
                    r,
                )
                &&& final(self).context.outbound_chunk_size == if r is Ok {
                    size
                } else {
                    old(self).context.outbound_chunk_size
                }
            } else {
                &&& r matches Err(e) && e == Error::InvalidChunkSize(size)
                &&& final(self).context.sent@ == old(self).context.sent@
                &&& final(self).context.outbound_chunk_size == old(self).context.outbound_chunk_size
            },
    {
        if size < MIN_CHUNK_SIZE || size > MAX_CHUNK_SIZE {
            return Err(Error::InvalidChunkSize(size));
        }
        match RTMPWriter::write(
            RTMPMessageType::SetChunkSize(SetChunkSize { size }),
            &mut self.context,
        ) {
            Ok(()) => {
                self.context.outbound_chunk_size = size;
                Ok(())
            },
            Err(e) => Err(e),
        }
    }

    /// Acknowledges what has been received, where that is due: once the
    /// bytes received since the last acknowledgement fill the window that
    /// the server has announced.
    pub fn acknowledge_if_due(&mut self) -> (r: Result<(), Error>)
        requires
            old(self).context.wf(),
        ensures
            final(self).context.wf(),
            spec_acknowledged(&old(self).context, &final(self).context, r),
    {
        let window = match self.context.window_ack_size {
            Some(window) => window,
            None => { return Ok(()); },
        };
        let received = self.context.bytes_received;
        let since = received.wrapping_sub(self.context.bytes_acknowledged);
        if since < window {
            return Ok(());
        }
        let message = RTMPMessageType::Acknowledgement(Acknowledgement { sequence_number: received });
        match RTMPWriter::write(message, &mut self.context) {
            Ok(()) => {
                self.context.bytes_acknowledged = received;
                Ok(())
            },
            Err(e) => Err(e),
        }
    }

    /// Reads one message from the transport, acts on it, and acknowledges
    /// what has been received where that is due.
    pub fn process_messages(&mut self) -> (r: Result<(), Error>)
        requires
            old(self).context.wf(),
        ensures
            final(self).context.wf(),
            final(self).context.received@ == old(self).context.received@
                + final(self).context.spec_read_since(&old(self).context),
            match r {
                Ok(()) => spec_processed(&old(self).context, &final(self).context),
                Err(e) => spec_process_failed(&old(self).context, &final(self).context, e),
            },
    {
        let ghost before = self.context;
        let typed = match RTMPReader::read(&mut self.context) {
            Ok(t) => t,
            Err(e) => { return Err(e); },
        };
        let ghost read = self.context;
        let ghost typed_view = typed;
        match self.dispatch(typed) {
            Ok(()) => {},
            Err(e) => {
                proof {
                    assert(self.context.spec_read_since(&before) =~= read.spec_read_since(&before));
                    assert(self.context.spec_streams() =~= read.spec_streams());
                    assert(spec_dispatched(typed_view, &read, &self.context, Err(e)));
                }
                return Err(e);
            },
        }
        let ghost acted = self.context;
        let r = self.acknowledge_if_due();
        proof {
            assert(self.context.spec_read_since(&before) =~= read.spec_read_since(&before));
            assert(self.context.spec_streams() =~= read.spec_streams());
            assert(spec_dispatched(typed_view, &read, &acted, Ok(())));
            if r is Ok {
                assert(spec_acknowledged(&acted, &self.context, Ok(())));
            } else {
                assert(spec_acknowledged(&acted, &self.context, Err(r->Err_0)));
            }
        }
        r
    }

    /// Closes the transport: one call of the transport's `disconnect`
    /// takes it from its state before to its state after, and the result is
    /// what that call gave, its failure as an I/O error. Nothing else of
    /// the session changes, and nothing is sent.
    pub fn disconnect(&mut self) -> (r: Result<(), Error>)
        ensures
            final(self).context.spec_same_io_but_transport(&old(self).context),
            exists|m: &mut T, closed: Result<(), std::io::Error>|
                mut_ref_current(m) == old(self).context.transport
                    && mut_ref_future(m) == final(self).context.transport
                    && #[trigger] call_ensures(T::disconnect, (m,), closed)
                    && r == spec_disconnected(closed),
    {
        let closed = self.context.transport.disconnect();
        match closed {
            Ok(()) => Ok(()),
            Err(e) => Err(Error::Io(e)),
        }
    }
}

/// Whether a context is what acting on a typed message makes of another,
/// and `r` the result of acting.
///
/// A chunk size between 1 and 2^31 - 1 is taken, any other refused; a
/// window and an acknowledgement are taken note
/// of; a bandwidth limit is taken note of and answered with its size as
/// the window, unless that size is the one announced last; a ping request
/// is answered with a ping response of its timestamp; an answer to a call
/// ends the call, its callback having got the answer; a message about a
/// shared object makes the object apply what it has received. What is
/// sent is exactly the answer, if there is one.
pub open spec fn spec_dispatched<T: Transport, F: Fn(TransactionResult, AmfValue, Vec<AmfValue>)>(
    message: RTMPMessageType,
    before: &NetConnectionContext<T, F>,
    after: &NetConnectionContext<T, F>,
    r: Result<(), Error>,
) -> bool {
    &&& after.received@ == before.received@
    &&& after.bytes_received == before.bytes_received
    &&& after.chunk_streams == before.chunk_streams
    &&& after.connection_args == before.connection_args
    &&& after.last_ping_sent == before.last_ping_sent
    &&& after.relative_timestamp == before.relative_timestamp
    &&& after.bytes_acknowledged == before.bytes_acknowledged
    &&& match spec_reply(message@, before) {
        Some(reply) => spec_wrote(reply, before, after, r),
        None => after.sent@ == before.sent@,
    }
    &&& after.chunk_size == (match message {
        RTMPMessageType::SetChunkSize(m) => if r is Ok {
            m.size
        } else {
            before.chunk_size
        },
        _ => before.chunk_size,
    })
    &&& after.outbound_chunk_size == before.outbound_chunk_size
    &&& after.window_ack_size == (match message {
        RTMPMessageType::WindowAcknowledgementSize(m) => Some(m.size),
        _ => before.window_ack_size,
    })
    &&& after.peer_acknowledged == (match message {
        RTMPMessageType::Acknowledgement(m) => Some(m.sequence_number),
        _ => before.peer_acknowledged,
    })
    &&& after.peer_bandwidth == (match message {
        RTMPMessageType::SetPeerBandwidth(m) => Some(m),
        _ => before.peer_bandwidth,
    })
    &&& after.announced_window_ack_size == (match message {
        RTMPMessageType::SetPeerBandwidth(m) => if r is Ok {
            Some(m.size)
        } else {
            before.announced_window_ack_size
        },
        _ => before.announced_window_ack_size,
    })
    &&& match message {
        RTMPMessageType::AMF0Command(command) => spec_answered(command, before, after, r),
        RTMPMessageType::AMF3SharedObject(name) => after.transaction_manager
            == before.transaction_manager && spec_applied(name@, before, after, r),
        RTMPMessageType::UserControlMessage(UserControlMessage::PingRequest { .. }) => {
            after.transaction_manager == before.transaction_manager && after.shared_objects
                == before.shared_objects
        },
        RTMPMessageType::SetPeerBandwidth(_) => after.transaction_manager
            == before.transaction_manager && after.shared_objects == before.shared_objects,
        RTMPMessageType::SetChunkSize(m) => after.transaction_manager
            == before.transaction_manager && after.shared_objects == before.shared_objects
            && if MIN_CHUNK_SIZE <= m.size <= MAX_CHUNK_SIZE {
            r is Ok
        } else {
            r matches Err(e) && e == Error::InvalidChunkSize(m.size)
        },
        _ => after.transaction_manager == before.transaction_manager && after.shared_objects
            == before.shared_objects && r is Ok,
    }
}

/// Whether a context is what a command of the server makes of another. A
/// `_result` or an `_error` for a call that waits ends the call: the
/// callback gets the outcome, the command object (a null where there is
/// none) and the optional arguments, and the call is forgotten. An answer
/// to no call changes nothing. Any other command is refused.
pub open spec fn spec_answered<T: Transport, F: Fn(TransactionResult, AmfValue, Vec<AmfValue>)>(
    command: AMFCommandMessage,
    before: &NetConnectionContext<T, F>,
    after: &NetConnectionContext<T, F>,
    r: Result<(), Error>,
) -> bool {
    let pending = before.transaction_manager.pending();
    let id = command.transaction_id;
    &&& after.shared_objects == before.shared_objects
    &&& after.transaction_manager.last_id() == before.transaction_manager.last_id()
    &&& match spec_outcome(command.procedure_name@) {
        None => r matches Err(e) && e == Error::UnsupportedCommand
            && after.transaction_manager.pending() == pending,
        Some(outcome) => r is Ok && if pending.contains_key(id) {
            &&& after.transaction_manager.pending() == pending.remove(id)
            &&& call_ensures(
                pending[id].result_callback,
                (
                    outcome,
                    match command.command_object {
                        Some(v) => v,
                        None => AmfValue::Null,
                    },
                    command.optional_arguments,
                ),
                (),
            )
        } else {
            after.transaction_manager.pending() == pending
        },
    }
}

/// Whether a context is what applying the received events of the shared
/// object of the given name makes of another: the object's state is what
/// the events make of it, in the order they came; they are forgotten; the
/// events that wait to be sent stay; every other object is as it was.
pub open spec fn spec_applied<T: Transport, F: Fn(TransactionResult, AmfValue, Vec<AmfValue>)>(
    name: Seq<char>,
    before: &NetConnectionContext<T, F>,
    after: &NetConnectionContext<T, F>,
    r: Result<(), Error>,
) -> bool {
    if before.spec_has_shared_object(name) {
        let at = spec_position(before.shared_objects@, name);
        let was = before.shared_objects@[at];
        let is = after.shared_objects@[at];
        &&& r is Ok
        &&& after.shared_objects@.len() == before.shared_objects@.len()
        &&& forall|i: int|
            0 <= i < before.shared_objects@.len() && i != at ==> after.shared_objects@[i]
                == before.shared_objects@[i]
        &&& is.spec_state() == spec_apply_events(
            was.spec_state(),
            spec_event_views(was.received_events@),
        )
        &&& is.received_events@.len() == 0
        &&& is.name == was.name
        &&& is.persistant == was.persistant
        &&& is.version == was.version
        &&& is.events == was.events
        &&& is.flush_state == was.flush_state
    } else {
        r matches Err(e) && e == Error::UnknownSharedObject && after.shared_objects
            == before.shared_objects
    }
}

/// Whether a context is what reading one message, acting on it and
/// acknowledging where it is due makes of another: what was read is one
/// message to its last byte, and there are the states in between that the
/// three steps lead through.
pub open spec fn spec_processed<T: Transport, F: Fn(TransactionResult, AmfValue, Vec<AmfValue>)>(
    before: &NetConnectionContext<T, F>,
    after: &NetConnectionContext<T, F>,
) -> bool {
    let bytes = after.spec_read_since(before);
    match spec_read_message(bytes, before.chunk_size, before.spec_streams()) {
        MessageStep::Read { consumed, message, streams } => {
            &&& consumed == bytes.len()
            &&& streams == after.spec_streams()
            &&& exists|
                typed: RTMPMessageType,
                read: NetConnectionContext<T, F>,
                acted: NetConnectionContext<T, F>,
            |
                {
                    &&& spec_classified(message, before, &read, Ok(typed))
                    &&& read.spec_read_only(before)
                    &&& #[trigger] spec_dispatched(typed, &read, &acted, Ok(()))
                    &&& #[trigger] spec_acknowledged(&acted, after, Ok(()))
                }
        },
        _ => false,
    }
}

/// Whether a context is what a failed attempt to read one message, act on
/// it and acknowledge makes of another, and `e` the error of the attempt:
/// the transport has failed; or a chunk or the message breaks the
/// protocol; or acting on the message or acknowledging has failed.
pub open spec fn spec_process_failed<T: Transport, F: Fn(TransactionResult, AmfValue, Vec<AmfValue>)>(
    before: &NetConnectionContext<T, F>,
    after: &NetConnectionContext<T, F>,
    e: Error,
) -> bool {
    let bytes = after.spec_read_since(before);
    e is Io || match spec_read_message(bytes, before.chunk_size, before.spec_streams()) {
        MessageStep::Read { consumed, message, streams } => {
            &&& consumed == bytes.len()
            &&& streams == after.spec_streams()
            &&& {
                ||| spec_classified(message, before, after, Err(e))
                ||| exists|typed: RTMPMessageType, read: NetConnectionContext<T, F>|
                    {
                        &&& spec_classified(message, before, &read, Ok(typed))
                        &&& read.spec_read_only(before)
                        &&& #[trigger] spec_dispatched(typed, &read, after, Err(e))
                    }
                ||| exists|
                    typed: RTMPMessageType,
                    read: NetConnectionContext<T, F>,
                    acted: NetConnectionContext<T, F>,
                |
                    {
                        &&& spec_classified(message, before, &read, Ok(typed))
                        &&& read.spec_read_only(before)
                        &&& #[trigger] spec_dispatched(typed, &read, &acted, Ok(()))
                        &&& #[trigger] spec_acknowledged(&acted, after, Err(e))
                    }
            }
        },
        MessageStep::Invalid(fault) => e == fault,
        MessageStep::Short => false,
    }
}

/// A ping request is answered with exactly one ping response of the same
/// timestamp, and nothing more is read while it is answered.
pub proof fn lemma_ping_is_answered<T: Transport, F: Fn(TransactionResult, AmfValue, Vec<AmfValue>)>(
    timestamp: u32,
    before: &NetConnectionContext<T, F>,
    after: &NetConnectionContext<T, F>,
    r: Result<(), Error>,
)
    requires
        spec_dispatched(
            RTMPMessageType::UserControlMessage(UserControlMessage::PingRequest { timestamp }),
            before,
            after,
            r,
        ),
    ensures
        after.received@ == before.received@,
        r matches Err(e) ==> e is Io && after.sent@ == before.sent@,
        r is Ok ==> after.sent@ == before.sent@ + crate::chunk::writer::spec_message_bytes(
            RTMPMessageView {
                timestamp: 0,
                message_type_id: crate::chunk::packets::MessageTypeId::UserControlMessage,
                message_stream_id: 0,
                chunk_stream_id: 2,
                payload: (UserControlMessage::PingResponse { timestamp }).spec_bytes(),
            },
            before.outbound_chunk_size,
        ),
{
    crate::utils::bytes::lemma_u32_be_roundtrip(timestamp);
    crate::utils::bytes::lemma_u16_be_roundtrip(7);
}

/// Whether a context is what acknowledging where it is due makes of
/// another, and `r` the result. Where acknowledging is due, an
/// acknowledgement of the count of bytes received is sent, and that count
/// is the one acknowledged last; where it is not, nothing happens.
pub open spec fn spec_acknowledged<T: Transport, F: Fn(TransactionResult, AmfValue, Vec<AmfValue>)>(
    before: &NetConnectionContext<T, F>,
    after: &NetConnectionContext<T, F>,
    r: Result<(), Error>,
) -> bool {
    &&& after.spec_same_but_acknowledged(before)
    &&& if spec_acknowledgement_due(before) {
        &&& spec_wrote(
            RTMPMessageTypeView::Acknowledgement(
                Acknowledgement { sequence_number: before.bytes_received },
            ),
            before,
            after,
            r,
        )
        &&& after.bytes_acknowledged == if r is Ok {
            before.bytes_received
        } else {
            before.bytes_acknowledged
        }
    } else {
        r is Ok && after.sent@ == before.sent@ && after.bytes_acknowledged
            == before.bytes_acknowledged
    }
}

} // verus!
