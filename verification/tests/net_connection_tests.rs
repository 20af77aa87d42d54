use rtmp_client::amf::{AmfProperty, AmfValue};
use rtmp_client::chunk::packets::MessageTypeId;
use rtmp_client::chunk::writer::RTMPChunker;
use rtmp_client::context::{ConnectionArgs, ObjectEncoding};
use rtmp_client::errors::Error;
use rtmp_client::net_connection::packets::{
    AMFCommandMessage, Acknowledgement, PeerBandwidthLimitType, RTMPMessage, RTMPMessageType,
    SetChunkSize, SetPeerBandwidth, UserControlMessage, WindowAcknowledgementSize,
};
use rtmp_client::net_connection::reader::RTMPReader;
use rtmp_client::net_connection::transaction_manager::TransactionResult;
use rtmp_client::net_connection::writer::RTMPWriter;
use rtmp_client::net_connection::NetConnection;
use rtmp_client::shared_object::{SharedObject, SharedObjectEvent, SharedObjectFlushState};
use rtmp_client::transport::Transport;
use rtmp_client::utils::url::parse_tc_url;
use std::cell::RefCell;
use std::rc::Rc;

type Callback = Box<dyn Fn(TransactionResult, AmfValue, Vec<AmfValue>)>;
type Calls = Rc<RefCell<Vec<(TransactionResult, AmfValue, Vec<AmfValue>)>>>;

struct Loopback {
    input: Vec<u8>,
    pos: usize,
    output: Vec<u8>,
    connected_to: Option<(String, u16)>,
    fail_writes: bool,
    refuse_connections: bool,
}

impl Transport for Loopback {
    fn connect(&mut self, ip: String, port: u16) -> Result<(), std::io::Error> {
        if self.refuse_connections {
            return Err(std::io::Error::new(std::io::ErrorKind::ConnectionRefused, "refused"));
        }
        self.connected_to = Some((ip, port));
        Ok(())
    }

    fn disconnect(&mut self) -> Result<(), std::io::Error> {
        self.connected_to = None;
        Ok(())
    }

    fn read_data(&mut self, size: usize) -> Result<Vec<u8>, std::io::Error> {
        if self.input.len() - self.pos < size {
            return Err(std::io::Error::new(std::io::ErrorKind::UnexpectedEof, "short read"));
        }
        let out = self.input[self.pos..self.pos + size].to_vec();
        self.pos += size;
        Ok(out)
    }

    fn write_data(&mut self, data: Vec<u8>) -> Result<(), std::io::Error> {
        if self.fail_writes {
            return Err(std::io::Error::new(std::io::ErrorKind::BrokenPipe, "closed"));
        }
        self.output.extend_from_slice(&data);
        Ok(())
    }
}

fn connection(input: Vec<u8>) -> NetConnection<Loopback, Callback> {
    NetConnection::new(Loopback { input, pos: 0, output: Vec::new(), connected_to: None, fail_writes: false, refuse_connections: false })
}

fn recorder(calls: &Calls) -> Callback {
    let calls = calls.clone();
    Box::new(move |result, object, arguments| calls.borrow_mut().push((result, object, arguments)))
}

fn number(v: f64) -> AmfValue {
    AmfValue::Number(v.to_bits())
}

fn string(s: &str) -> AmfValue {
    AmfValue::String(s.to_string())
}

fn wire(type_id: MessageTypeId, csid: u32, payload: Vec<u8>, chunk_size: u32) -> Vec<u8> {
    let message = RTMPMessage { timestamp: 0, message_type_id: type_id, message_stream_id: 0, chunk_stream_id: csid, payload };
    RTMPChunker::fragment(&message, chunk_size).unwrap()
}

fn server_answer() -> Vec<u8> {
    let mut answer = vec![3, 0, 0, 0, 5, 0, 0, 0, 0];
    answer.extend((0..1528).map(|i| (i % 7) as u8));
    answer.extend_from_slice(&[0, 0, 0, 5, 0, 0, 0, 0]);
    answer.extend(std::iter::repeat(b'x').take(1528));
    answer
}

fn property(name: &str, value: AmfValue) -> AmfProperty {
    AmfProperty { name: name.to_string(), value }
}

#[test]
fn new_connection_defaults() {
    let mut connection = connection(vec![]);
    assert_eq!(connection.context.chunk_size, 128);
    assert_eq!(connection.context.outbound_chunk_size, 128);
    assert_eq!(connection.context.window_ack_size, None);
    assert!(connection.context.connection_args.is_none());
    assert!(connection.context.shared_objects.is_empty());
    assert!(connection.context.chunk_streams.is_empty());
    assert_eq!(connection.context.bytes_received, 0);
    assert_eq!(connection.get_context().chunk_size, 128);
    connection.get_context().chunk_size = 256;
    assert_eq!(connection.context.chunk_size, 256);
}

#[test]
fn connection_args_for_a_url() {
    let url = parse_tc_url("rtmp://localhost:1936/app/instance").unwrap();
    let args = NetConnection::<Loopback, Callback>::connection_args(url);
    assert_eq!(
        args,
        ConnectionArgs {
            app: "app".to_string(),
            flash_ver: "WIN 32,0,0,465".to_string(),
            swf_url: "".to_string(),
            tc_url: "rtmp://localhost:1936/app/instance".to_string(),
            fpad: false,
            audio_codecs: 3575,
            video_codecs: 252,
            video_function: 1,
            page_url: "".to_string(),
            object_encoding: ObjectEncoding::AMF0,
            additional_args: vec![],
        }
    );
    assert_eq!(ObjectEncoding::AMF0.to_u32(), 0);
    assert_eq!(ObjectEncoding::AMF3.to_u32(), 3);
}

fn expected_connect_command(id: u32, tc_url: &str, app: &str) -> AMFCommandMessage {
    AMFCommandMessage {
        procedure_name: "connect".to_string(),
        transaction_id: id,
        command_object: Some(AmfValue::Object(vec![
            property("videoCodecs", number(252.0)),
            property("audioCodecs", number(3575.0)),
            property("flashVer", string("WIN 32,0,0,465")),
            property("app", string(app)),
            property("tcUrl", string(tc_url)),
            property("videoFunction", number(1.0)),
            property("capabilities", number(239.0)),
            property("pageUrl", string("")),
            property("fpad", AmfValue::Bool(false)),
            property("swfUrl", string("")),
            property("objectEncoding", number(0.0)),
        ])),
        optional_arguments: vec![],
    }
}

#[test]
fn connect_command_has_the_eleven_properties() {
    let url = parse_tc_url("rtmp://h/live").unwrap();
    let mut args = NetConnection::<Loopback, Callback>::connection_args(url);
    assert_eq!(NetConnection::<Loopback, Callback>::connect_command(&args, 2), expected_connect_command(2, "rtmp://h/live", "live"));
    args.object_encoding = ObjectEncoding::AMF3;
    args.additional_args = vec![string("extra")];
    args.fpad = true;
    let command = NetConnection::<Loopback, Callback>::connect_command(&args, 9);
    assert_eq!(command.transaction_id, 9);
    assert_eq!(command.optional_arguments, vec![string("extra")]);
    match command.command_object {
        Some(AmfValue::Object(properties)) => {
            assert_eq!(properties[10], property("objectEncoding", number(3.0)));
            assert_eq!(properties[8], property("fpad", AmfValue::Bool(true)));
        }
        other => panic!("unexpected {:?}", other),
    }
}

#[test]
fn connect_runs_handshake_and_sends_the_command() {
    let calls: Calls = Rc::new(RefCell::new(Vec::new()));
    let mut connection = connection(server_answer());
    connection.connect("rtmp://127.0.0.1:1936/app/inst", recorder(&calls)).unwrap();
    assert_eq!(connection.context.transport.connected_to, Some(("127.0.0.1".to_string(), 1936)));
    let output = connection.context.transport.output.clone();
    assert_eq!(&output[..9], &[3, 0, 0, 0, 0, 0, 0, 0, 0]);
    assert!(output[9..1537].iter().all(|b| *b == b'x'));
    assert_eq!(&output[1537..1545], &[0, 0, 0, 5, 0, 0, 0, 0]);
    assert_eq!(&output[1545..3073], &server_answer()[9..1537]);
    let mut payload = Vec::new();
    RTMPWriter::write_amf0_command(expected_connect_command(2, "rtmp://127.0.0.1:1936/app/inst", "app"), &mut payload).unwrap();
    assert_eq!(&output[3073..], &wire(MessageTypeId::CommandAMF0, 3, payload, 128)[..]);
    assert!(connection.context.transaction_manager.get_transaction(2).is_some());
    assert_eq!(connection.context.connection_args.as_ref().unwrap().app, "app");
    assert!(calls.borrow().is_empty());
}

#[test]
fn connect_request_needs_arguments_on_record() {
    let calls: Calls = Rc::new(RefCell::new(Vec::new()));
    let mut connection = connection(vec![]);
    assert!(matches!(connection.send_connect_request(recorder(&calls)), Err(Error::NotConnected)));
    assert!(connection.context.transport.output.is_empty());
    assert!(connection.context.transaction_manager.get_transaction(2).is_none());
    let url = parse_tc_url("rtmp://h/live").unwrap();
    connection.context.connection_args = Some(NetConnection::<Loopback, Callback>::connection_args(url));
    connection.send_connect_request(recorder(&calls)).unwrap();
    connection.send_connect_request(recorder(&calls)).unwrap();
    let mut first = Vec::new();
    RTMPWriter::write_amf0_command(expected_connect_command(2, "rtmp://h/live", "live"), &mut first).unwrap();
    let mut second = Vec::new();
    RTMPWriter::write_amf0_command(expected_connect_command(3, "rtmp://h/live", "live"), &mut second).unwrap();
    let mut expected = wire(MessageTypeId::CommandAMF0, 3, first, 128);
    expected.extend(wire(MessageTypeId::CommandAMF0, 3, second, 128));
    assert_eq!(connection.context.transport.output, expected);
    assert!(connection.context.transaction_manager.get_transaction(2).is_some());
    assert!(connection.context.transaction_manager.get_transaction(3).is_some());
}

#[test]
fn connect_refuses_bad_urls_before_sending() {
    let calls: Calls = Rc::new(RefCell::new(Vec::new()));
    let mut connection = connection(server_answer());
    assert!(matches!(connection.connect("rtmp://", recorder(&calls)), Err(Error::InvalidUrl)));
    assert!(matches!(connection.connect("http://host/app", recorder(&calls)), Err(Error::UnsupportedScheme)));
    assert!(connection.context.transport.output.is_empty());
    assert_eq!(connection.context.transport.connected_to, None);
    assert!(connection.context.transaction_manager.get_transaction(2).is_none());
}

#[test]
fn connect_fails_with_the_handshake() {
    let calls: Calls = Rc::new(RefCell::new(Vec::new()));
    let mut answer = server_answer();
    answer[0] = 6;
    let mut connection = connection(answer);
    assert!(matches!(
        connection.connect("rtmp://host/app", recorder(&calls)),
        Err(Error::Handshake(rtmp_client::handshake::errors::HandshakeError::VersionError(6)))
    ));
    assert_eq!(connection.context.transport.output.len(), 1537);
}

#[test]
fn connect_sends_nothing_where_the_transport_does_not_connect() {
    let calls: Calls = Rc::new(RefCell::new(Vec::new()));
    let mut connection = connection(server_answer());
    connection.context.transport.refuse_connections = true;
    let refused = connection.connect("rtmp://host:1940/app", recorder(&calls));
    assert!(matches!(refused, Err(Error::Io(e)) if e.kind() == std::io::ErrorKind::ConnectionRefused));
    assert!(connection.context.transport.output.is_empty());
    assert_eq!(connection.context.transport.pos, 0);
    assert!(connection.context.transaction_manager.get_transaction(2).is_none());
    assert_eq!(connection.context.connection_args.as_ref().unwrap().tc_url, "rtmp://host:1940/app");
}

#[test]
fn connect_stops_at_a_write_that_fails() {
    let calls: Calls = Rc::new(RefCell::new(Vec::new()));
    let mut connection = connection(server_answer());
    connection.context.transport.fail_writes = true;
    let failed = connection.connect("rtmp://host/app", recorder(&calls));
    assert!(matches!(failed, Err(Error::Io(e)) if e.kind() == std::io::ErrorKind::BrokenPipe));
    assert_eq!(connection.context.transport.connected_to, Some(("host".to_string(), 1935)));
    assert!(connection.context.transport.output.is_empty());
    assert_eq!(connection.context.transport.pos, 0);
    assert!(connection.context.transaction_manager.get_transaction(2).is_none());
}

#[test]
fn connect_with_a_short_answer_has_sent_the_hello_only() {
    let calls: Calls = Rc::new(RefCell::new(Vec::new()));
    let mut connection = connection(server_answer()[..3000].to_vec());
    let failed = connection.connect("rtmp://host/app", recorder(&calls));
    assert!(matches!(failed, Err(Error::Io(e)) if e.kind() == std::io::ErrorKind::UnexpectedEof));
    assert_eq!(connection.context.transport.output.len(), 1537);
    assert!(connection.context.transaction_manager.get_transaction(2).is_none());
}

#[test]
fn transaction_correlation_end_to_end() {
    let calls: Calls = Rc::new(RefCell::new(Vec::new()));
    let mut input = server_answer();
    let properties = AmfValue::Object(vec![property("fmsVer", string("FMS/3,0,1,123"))]);
    let information = AmfValue::Object(vec![property("code", string("NetConnection.Connect.Success"))]);
    let mut payload = Vec::new();
    RTMPWriter::write_amf0_command(
        AMFCommandMessage {
            procedure_name: "_result".to_string(),
            transaction_id: 2,
            command_object: Some(properties.clone()),
            optional_arguments: vec![information.clone()],
        },
        &mut payload,
    )
    .unwrap();
    input.extend(wire(MessageTypeId::CommandAMF0, 3, payload.clone(), 128));
    input.extend(wire(MessageTypeId::CommandAMF0, 3, payload, 128));
    let mut connection = connection(input);
    connection.connect("rtmp://host/app", recorder(&calls)).unwrap();
    connection.process_messages().unwrap();
    assert_eq!(*calls.borrow(), vec![(TransactionResult::Result, properties, vec![information])]);
    assert!(connection.context.transaction_manager.get_transaction(2).is_none());
    connection.process_messages().unwrap();
    assert_eq!(calls.borrow().len(), 1);
}

#[test]
fn error_answers_reach_the_callback() {
    let calls: Calls = Rc::new(RefCell::new(Vec::new()));
    let mut input = server_answer();
    let mut payload = Vec::new();
    RTMPWriter::write_amf0_command(
        AMFCommandMessage { procedure_name: "_error".to_string(), transaction_id: 2, command_object: None, optional_arguments: vec![string("no")] },
        &mut payload,
    )
    .unwrap();
    input.extend(wire(MessageTypeId::CommandAMF0, 3, payload, 128));
    let mut connection = connection(input);
    connection.connect("rtmp://host/app", recorder(&calls)).unwrap();
    connection.process_messages().unwrap();
    assert_eq!(*calls.borrow(), vec![(TransactionResult::Error, AmfValue::Null, vec![string("no")])]);
}

#[test]
fn commands_of_the_server_are_refused() {
    let mut payload = Vec::new();
    RTMPWriter::write_amf0_command(
        AMFCommandMessage { procedure_name: "onBWDone".to_string(), transaction_id: 0, command_object: None, optional_arguments: vec![] },
        &mut payload,
    )
    .unwrap();
    let mut connection = connection(wire(MessageTypeId::CommandAMF0, 3, payload, 128));
    assert!(matches!(connection.process_messages(), Err(Error::UnsupportedCommand)));
}

#[test]
fn set_chunk_size_update() {
    let mut input = wire(MessageTypeId::SetChunkSize, 2, vec![0x00, 0x00, 0x10, 0x00], 128);
    let big: Vec<u8> = (0..5000).map(|i| (i % 253) as u8).collect();
    input.extend(wire(MessageTypeId::AudioData, 4, big, 4096));
    let mut connection = connection(input);
    connection.process_messages().unwrap();
    assert_eq!(connection.context.chunk_size, 4096);
    assert!(matches!(connection.process_messages(), Err(Error::UnhandledMessageType(8))));
    assert_eq!(connection.context.transport.pos, connection.context.transport.input.len());
    assert_eq!(connection.context.outbound_chunk_size, 128);
    connection.set_chunk_size(4096).unwrap();
    assert_eq!(connection.context.outbound_chunk_size, 4096);
    assert_eq!(connection.context.transport.output, vec![0x02, 0, 0, 0, 0, 0, 4, 0x01, 0, 0, 0, 0, 0, 0, 0x10, 0]);
    let message = RTMPMessage {
        timestamp: 0,
        message_type_id: MessageTypeId::CommandAMF0,
        message_stream_id: 0,
        chunk_stream_id: 3,
        payload: vec![7; 5000],
    };
    RTMPChunker::write_chunks(message, &mut connection.context).unwrap();
    let output = &connection.context.transport.output[16..];
    assert_eq!(output.len(), 12 + 4096 + 1 + 904);
    assert_eq!(output[0], 0x03);
    assert_eq!(&output[4..7], &[0x00, 0x13, 0x88]);
    assert_eq!(output[12 + 4096], 0xC3);
    assert!(output[12..12 + 4096].iter().all(|b| *b == 7));
    assert!(output[12 + 4096 + 1..].iter().all(|b| *b == 7));
}

#[test]
fn the_peer_does_not_set_the_size_of_what_the_client_sends() {
    let mut connection = connection(wire(MessageTypeId::SetChunkSize, 2, vec![0x00, 0x00, 0x10, 0x00], 128));
    connection.process_messages().unwrap();
    assert_eq!((connection.context.chunk_size, connection.context.outbound_chunk_size), (4096, 128));
    let message = RTMPMessage {
        timestamp: 0,
        message_type_id: MessageTypeId::CommandAMF0,
        message_stream_id: 0,
        chunk_stream_id: 3,
        payload: vec![7; 200],
    };
    RTMPChunker::write_chunks(message, &mut connection.context).unwrap();
    assert_eq!(connection.context.transport.output.len(), 12 + 128 + 1 + 72);
}

#[test]
fn set_chunk_size_refuses_sizes_out_of_range() {
    let mut connection = connection(vec![]);
    assert!(matches!(connection.set_chunk_size(0), Err(Error::InvalidChunkSize(0))));
    assert!(matches!(connection.set_chunk_size(0x8000_0000), Err(Error::InvalidChunkSize(0x8000_0000))));
    assert!(connection.context.transport.output.is_empty());
    assert_eq!(connection.context.outbound_chunk_size, 128);
    connection.context.transport.fail_writes = true;
    assert!(matches!(connection.set_chunk_size(256), Err(Error::Io(_))));
    assert_eq!(connection.context.outbound_chunk_size, 128);
    connection.context.transport.fail_writes = false;
    connection.set_chunk_size(0x7FFF_FFFF).unwrap();
    assert_eq!(connection.context.outbound_chunk_size, 0x7FFF_FFFF);
    assert_eq!(connection.context.chunk_size, 128);
}

#[test]
fn bad_chunk_sizes_are_refused() {
    let mut connection = connection(wire(MessageTypeId::SetChunkSize, 2, vec![0, 0, 0, 0], 128));
    assert!(matches!(connection.process_messages(), Err(Error::InvalidChunkSize(0))));
    assert_eq!(connection.context.chunk_size, 128);
    let mut connection = connection_with(wire(MessageTypeId::SetChunkSize, 2, vec![0xFF, 0, 0, 0], 128));
    assert!(matches!(connection.process_messages(), Err(Error::InvalidChunkSize(0xFF00_0000))));
}

fn connection_with(input: Vec<u8>) -> NetConnection<Loopback, Callback> {
    connection(input)
}

#[test]
fn dispatch_acts_on_typed_messages() {
    let mut connection = connection(vec![]);
    assert!(matches!(
        connection.dispatch(RTMPMessageType::SetChunkSize(SetChunkSize { size: 0 })),
        Err(Error::InvalidChunkSize(0))
    ));
    assert_eq!(connection.context.chunk_size, 128);
    connection.dispatch(RTMPMessageType::SetChunkSize(SetChunkSize { size: 1 })).unwrap();
    assert_eq!(connection.context.chunk_size, 1);
    connection.dispatch(RTMPMessageType::WindowAcknowledgementSize(WindowAcknowledgementSize { size: 77 })).unwrap();
    assert_eq!(connection.context.window_ack_size, Some(77));
    connection.dispatch(RTMPMessageType::Acknowledgement(Acknowledgement { sequence_number: 5 })).unwrap();
    assert_eq!(connection.context.peer_acknowledged, Some(5));
    connection.dispatch(RTMPMessageType::UserControlMessage(UserControlMessage::StreamBegin { stream_id: 1 })).unwrap();
    assert!(connection.context.transport.output.is_empty());
    assert!(matches!(
        connection.dispatch(RTMPMessageType::AMF3SharedObject("none".to_string())),
        Err(Error::UnknownSharedObject)
    ));
    connection
        .dispatch(RTMPMessageType::AMF0Command(AMFCommandMessage {
            procedure_name: "_result".to_string(),
            transaction_id: 99,
            command_object: None,
            optional_arguments: vec![],
        }))
        .unwrap();
    connection.dispatch(RTMPMessageType::UserControlMessage(UserControlMessage::PingRequest { timestamp: 3 })).unwrap();
    assert_eq!(connection.context.transport.output, vec![0x02, 0, 0, 0, 0, 0, 6, 0x04, 0, 0, 0, 0, 0, 7, 0, 0, 0, 3]);
}

#[test]
fn ping_is_answered_with_pong() {
    let mut input = wire(MessageTypeId::UserControlMessage, 2, vec![0, 6, 0x12, 0x34, 0x56, 0x78], 128);
    input.extend(wire(MessageTypeId::UserControlMessage, 2, vec![0, 0, 0, 0, 0, 1], 128));
    let mut connection = connection(input);
    connection.process_messages().unwrap();
    assert_eq!(
        connection.context.transport.output,
        vec![0x02, 0, 0, 0, 0, 0, 6, 0x04, 0, 0, 0, 0, 0, 7, 0x12, 0x34, 0x56, 0x78]
    );
    assert_eq!(connection.context.transport.pos, 18);
    connection.process_messages().unwrap();
    assert_eq!(connection.context.transport.output.len(), 18);
}

#[test]
fn unknown_user_control_events_surface() {
    let mut connection = connection(wire(MessageTypeId::UserControlMessage, 2, vec![0, 31, 0, 0, 0, 1], 128));
    assert!(matches!(connection.process_messages(), Err(Error::UnknownUserControlEvent(31))));
    assert!(connection.context.transport.output.is_empty());
}

#[test]
fn window_size_is_stored_and_acknowledged_when_full() {
    let mut input = wire(MessageTypeId::WindowAcknowledgementSize, 2, vec![0, 0, 0, 40], 128);
    input.extend(wire(MessageTypeId::UserControlMessage, 2, vec![0, 0, 0, 0, 0, 1], 128));
    input.extend(wire(MessageTypeId::UserControlMessage, 2, vec![0, 1, 0, 0, 0, 1], 128));
    input.extend(wire(MessageTypeId::UserControlMessage, 2, vec![0, 2, 0, 0, 0, 1], 128));
    let mut connection = connection(input);
    connection.process_messages().unwrap();
    assert_eq!(connection.context.window_ack_size, Some(40));
    assert_eq!(connection.context.bytes_received, 16);
    assert!(connection.context.transport.output.is_empty());
    connection.process_messages().unwrap();
    assert_eq!(connection.context.bytes_received, 34);
    assert!(connection.context.transport.output.is_empty());
    connection.process_messages().unwrap();
    assert_eq!(connection.context.bytes_received, 52);
    assert_eq!(connection.context.transport.output, vec![0x02, 0, 0, 0, 0, 0, 4, 0x03, 0, 0, 0, 0, 0, 0, 0, 52]);
    assert_eq!(connection.context.bytes_acknowledged, 52);
    connection.process_messages().unwrap();
    assert_eq!(connection.context.transport.output.len(), 16);
    assert_eq!(connection.context.bytes_acknowledged, 52);
}

#[test]
fn acknowledge_if_due_without_a_window_does_nothing() {
    let mut connection = connection(vec![]);
    connection.context.bytes_received = 1_000_000;
    connection.acknowledge_if_due().unwrap();
    assert!(connection.context.transport.output.is_empty());
    connection.context.window_ack_size = Some(1_000_001);
    connection.acknowledge_if_due().unwrap();
    assert!(connection.context.transport.output.is_empty());
    connection.context.window_ack_size = Some(1_000_000);
    connection.acknowledge_if_due().unwrap();
    assert_eq!(connection.context.transport.output, vec![0x02, 0, 0, 0, 0, 0, 4, 0x03, 0, 0, 0, 0, 0, 0x0F, 0x42, 0x40]);
    connection.context.bytes_received = 5;
    connection.context.bytes_acknowledged = 0xFFFF_FFF0;
    connection.context.window_ack_size = Some(21);
    connection.acknowledge_if_due().unwrap();
    assert_eq!(connection.context.bytes_acknowledged, 5);
}

#[test]
fn peer_bandwidth_is_answered_once_per_size() {
    let mut input = wire(MessageTypeId::SetPeerBandwidth, 2, vec![0, 0x26, 0x25, 0xA0, 2], 128);
    input.extend(wire(MessageTypeId::SetPeerBandwidth, 2, vec![0, 0x26, 0x25, 0xA0, 0], 128));
    input.extend(wire(MessageTypeId::SetPeerBandwidth, 2, vec![0, 0, 0, 9, 1], 128));
    let mut connection = connection(input);
    connection.process_messages().unwrap();
    let first = vec![0x02, 0, 0, 0, 0, 0, 4, 0x05, 0, 0, 0, 0, 0, 0x26, 0x25, 0xA0];
    assert_eq!(connection.context.transport.output, first);
    assert_eq!(connection.context.peer_bandwidth, Some(SetPeerBandwidth { size: 2_500_000, limit_type: PeerBandwidthLimitType::Dynamic }));
    assert_eq!(connection.context.announced_window_ack_size, Some(2_500_000));
    connection.process_messages().unwrap();
    assert_eq!(connection.context.transport.output, first);
    assert_eq!(connection.context.peer_bandwidth.unwrap().limit_type, PeerBandwidthLimitType::Hard);
    connection.process_messages().unwrap();
    assert_eq!(connection.context.transport.output.len(), 32);
    assert_eq!(&connection.context.transport.output[28..], &[0, 0, 0, 9]);
    assert_eq!(connection.context.announced_window_ack_size, Some(9));
}

#[test]
fn acknowledgements_of_the_peer_are_noted() {
    let mut connection = connection(wire(MessageTypeId::Acknowledgement, 2, vec![0, 0, 1, 0], 128));
    connection.process_messages().unwrap();
    assert_eq!(connection.context.peer_acknowledged, Some(256));
}

#[test]
fn unhandled_types_surface_and_the_session_goes_on() {
    let mut input = wire(MessageTypeId::VideoData, 5, vec![1, 2, 3], 128);
    input.extend(wire(MessageTypeId::AbortMessage, 2, vec![0, 0, 0, 3], 128));
    input.extend(wire(MessageTypeId::UserControlMessage, 2, vec![0, 6, 0, 0, 0, 9], 128));
    let mut connection = connection(input);
    assert!(matches!(connection.process_messages(), Err(Error::UnhandledMessageType(9))));
    assert!(matches!(connection.process_messages(), Err(Error::UnhandledMessageType(2))));
    connection.process_messages().unwrap();
    assert_eq!(&connection.context.transport.output[12..], &[0, 7, 0, 0, 0, 9]);
}

#[test]
fn shared_object_round_trip() {
    let mut echo = vec![0, 3, b's', b'o', b'1', 0, 0, 0, 1, 0, 0, 0, 0, 0, 0, 0, 0];
    echo.extend_from_slice(&[11, 0, 0, 0, 0]);
    echo.extend_from_slice(&[4, 0, 0, 0, 12, 0, 1, b'k', 0x00, 0x40, 0x08, 0, 0, 0, 0, 0, 0]);
    let mut connection = connection(wire(MessageTypeId::SharedObjectAMF0, 6, echo, 128));
    let mut object = SharedObject::new("so1".to_string(), false);
    object.dispatch_event(SharedObjectEvent::Use);
    connection.context.add_shared_object(object);
    connection.context.get_shared_object_mut("so1").unwrap().set_property("k".to_string(), number(3.0));
    connection.send_shared_object("so1".to_string()).unwrap();
    let mut payload = vec![0x00, 0, 3, b's', b'o', b'1', 0, 0, 0, 0, 0, 0, 0, 0, 0, 0, 0, 0];
    payload.extend_from_slice(&[1, 0, 0, 0, 0]);
    payload.extend_from_slice(&[3, 0, 0, 0, 12, 0, 1, b'k', 0x00, 0x40, 0x08, 0, 0, 0, 0, 0, 0]);
    assert_eq!(connection.context.transport.output, wire(MessageTypeId::SharedObjectAMF3, 6, payload, 128));
    {
        let registered = connection.context.get_shared_object("so1").unwrap();
        assert!(registered.events.is_empty());
        assert_eq!(registered.flush_state, SharedObjectFlushState::FLUSHED);
        assert!(!registered.use_success);
    }
    connection.process_messages().unwrap();
    let registered = connection.context.get_shared_object("so1").unwrap();
    assert_eq!(registered.data, vec![property("k", number(3.0))]);
    assert!(registered.events.is_empty());
    assert!(registered.received_events.is_empty());
    assert!(registered.use_success);
    assert_eq!(registered.version, 1);
}

#[test]
fn connect_sends_what_waits_and_the_use() {
    let mut object = SharedObject::new("so1".to_string(), false);
    object.set_property("k".to_string(), number(3.0));
    let mut connection = connection(vec![]);
    SharedObject::connect(object, &mut connection).unwrap();
    let mut payload = vec![0x00, 0, 3, b's', b'o', b'1', 0, 0, 0, 0, 0, 0, 0, 0, 0, 0, 0, 0];
    payload.extend_from_slice(&[3, 0, 0, 0, 12, 0, 1, b'k', 0x00, 0x40, 0x08, 0, 0, 0, 0, 0, 0]);
    payload.extend_from_slice(&[1, 0, 0, 0, 0]);
    assert_eq!(connection.context.transport.output, wire(MessageTypeId::SharedObjectAMF3, 6, payload, 128));
    let registered = connection.context.get_shared_object("so1").unwrap();
    assert!(registered.events.is_empty());
    assert_eq!(registered.flush_state, SharedObjectFlushState::FLUSHED);
    assert_eq!(registered.data, vec![property("k", number(3.0))]);
}

#[test]
fn use_comes_first_for_a_fresh_object() {
    let mut connection = connection(vec![]);
    SharedObject::connect(SharedObject::new("so1".to_string(), true), &mut connection).unwrap();
    connection.context.get_shared_object_mut("so1").unwrap().set_property("k".to_string(), number(3.0));
    assert_eq!(connection.context.get_shared_object("so1").unwrap().flush_state, SharedObjectFlushState::PENDING);
    SharedObject::flush("so1", &mut connection).unwrap();
    let mut first = vec![0x00, 0, 3, b's', b'o', b'1', 0, 0, 0, 0, 0, 0, 0, 2, 0, 0, 0, 0];
    first.extend_from_slice(&[1, 0, 0, 0, 0]);
    let mut second = vec![0x00, 0, 3, b's', b'o', b'1', 0, 0, 0, 0, 0, 0, 0, 2, 0, 0, 0, 0];
    second.extend_from_slice(&[3, 0, 0, 0, 12, 0, 1, b'k', 0x00, 0x40, 0x08, 0, 0, 0, 0, 0, 0]);
    let mut expected = wire(MessageTypeId::SharedObjectAMF3, 6, first, 128);
    expected.extend(wire(MessageTypeId::SharedObjectAMF3, 6, second, 128));
    assert_eq!(connection.context.transport.output, expected);
    assert_eq!(connection.context.get_shared_object("so1").unwrap().flush_state, SharedObjectFlushState::FLUSHED);
    assert!(connection.context.get_shared_object("so1").unwrap().events.is_empty());
}

#[test]
fn failed_flush_keeps_the_events() {
    let mut connection = connection(vec![]);
    SharedObject::connect(SharedObject::new("so1".to_string(), false), &mut connection).unwrap();
    connection.context.get_shared_object_mut("so1").unwrap().set_property("k".to_string(), number(3.0));
    connection.context.transport.fail_writes = true;
    assert!(matches!(SharedObject::flush("so1", &mut connection), Err(Error::Io(_))));
    let registered = connection.context.get_shared_object("so1").unwrap();
    assert_eq!(registered.events, vec![SharedObjectEvent::RequestChange { key: "k".to_string(), value: number(3.0) }]);
    assert_eq!(registered.flush_state, SharedObjectFlushState::PENDING);
    connection.context.transport.fail_writes = false;
    connection.send_shared_object("so1".to_string()).unwrap();
    assert!(connection.context.get_shared_object("so1").unwrap().events.is_empty());
    assert!(matches!(SharedObject::flush("other", &mut connection), Err(Error::UnknownSharedObject)));
}

#[test]
fn a_property_that_cannot_be_encoded_keeps_the_events_waiting() {
    let mut echo = vec![0, 3, b's', b'o', b'1', 0, 0, 0, 1, 0, 0, 0, 0, 0, 0, 0, 0];
    echo.extend_from_slice(&[4, 0, 0, 0, 6, 0, 1, b'k', 0x11, 0x0A, 0x00]);
    let mut connection = connection(wire(MessageTypeId::SharedObjectAMF0, 6, echo, 128));
    SharedObject::connect(SharedObject::new("so1".to_string(), false), &mut connection).unwrap();
    let sent = connection.context.transport.output.len();
    connection.process_messages().unwrap();
    let received = connection.context.get_shared_object("so1").unwrap().get_property("k").unwrap();
    assert!(matches!(received, AmfValue::Amf3(_)));
    connection.context.get_shared_object_mut("so1").unwrap().set_property("again".to_string(), received);
    assert!(matches!(SharedObject::flush("so1", &mut connection), Err(Error::AmfEncode)));
    assert_eq!(connection.context.transport.output.len(), sent);
    let registered = connection.context.get_shared_object("so1").unwrap();
    assert_eq!(registered.events.len(), 1);
    assert_eq!(registered.flush_state, SharedObjectFlushState::PENDING);
}

#[test]
fn messages_about_unknown_objects_are_refused() {
    let payload = vec![0, 3, b's', b'o', b'1', 0, 0, 0, 1, 0, 0, 0, 0, 0, 0, 0, 0, 11, 0, 0, 0, 0];
    let mut connection = connection(wire(MessageTypeId::SharedObjectAMF0, 6, payload, 128));
    assert!(matches!(connection.process_messages(), Err(Error::UnknownSharedObject)));
}

#[test]
fn registry_of_shared_objects() {
    let mut connection = connection(vec![]);
    let context = &mut connection.context;
    assert!(!context.has_shared_object("a"));
    assert!(matches!(context.get_shared_object("a"), Err(Error::UnknownSharedObject)));
    assert!(context.get_shared_object_mut("a").is_none());
    context.add_shared_object(SharedObject::new("a".to_string(), false));
    context.add_shared_object(SharedObject::new("b".to_string(), true));
    assert!(context.has_shared_object("a"));
    assert!(context.has_shared_object("b"));
    assert_eq!(context.position_of_shared_object("b"), 1);
    assert_eq!(context.position_of_shared_object("c"), 2);
    assert!(context.get_shared_object("b").unwrap().persistant);
    context.add_shared_object(SharedObject::new("a".to_string(), true));
    assert_eq!(context.shared_objects.len(), 2);
    assert!(context.get_shared_object("a").unwrap().persistant);
    context.get_shared_object_mut("b").unwrap().version = 5;
    assert_eq!(context.get_shared_object("b").unwrap().version, 5);
    context.remove_shared_object("a");
    assert!(!context.has_shared_object("a"));
    assert_eq!(context.position_of_shared_object("b"), 0);
    context.remove_shared_object("a");
    assert_eq!(context.shared_objects.len(), 1);
}

#[test]
fn reader_turns_messages_into_typed_messages() {
    let mut input = wire(MessageTypeId::SetChunkSize, 2, vec![0, 0, 1, 0], 128);
    input.extend(wire(MessageTypeId::WindowAcknowledgementSize, 2, vec![0, 0, 0, 1], 128));
    input.extend(wire(MessageTypeId::Acknowledgement, 2, vec![0, 0, 0, 2], 128));
    input.extend(wire(MessageTypeId::SetPeerBandwidth, 2, vec![0, 0, 0, 3, 1], 128));
    input.extend(wire(MessageTypeId::UserControlMessage, 2, vec![0, 4, 0, 0, 0, 5], 128));
    let mut connection = connection(input);
    let context = &mut connection.context;
    assert_eq!(RTMPReader::read(context).unwrap(), RTMPMessageType::SetChunkSize(SetChunkSize { size: 256 }));
    assert_eq!(context.chunk_size, 128);
    assert_eq!(RTMPReader::read(context).unwrap(), RTMPMessageType::WindowAcknowledgementSize(WindowAcknowledgementSize { size: 1 }));
    assert_eq!(RTMPReader::read(context).unwrap(), RTMPMessageType::Acknowledgement(Acknowledgement { sequence_number: 2 }));
    assert_eq!(
        RTMPReader::read(context).unwrap(),
        RTMPMessageType::SetPeerBandwidth(SetPeerBandwidth { size: 3, limit_type: PeerBandwidthLimitType::Soft })
    );
    assert_eq!(
        RTMPReader::read(context).unwrap(),
        RTMPMessageType::UserControlMessage(UserControlMessage::StreamIsRecorded { stream_id: 5 })
    );
    assert!(matches!(RTMPReader::read(context), Err(Error::Io(_))));
}

#[test]
fn writer_sends_each_kind_on_its_chunk_stream() {
    let mut connection = connection(vec![]);
    let context = &mut connection.context;
    RTMPWriter::write(RTMPMessageType::SetChunkSize(SetChunkSize { size: 4096 }), context).unwrap();
    RTMPWriter::write(RTMPMessageType::Acknowledgement(Acknowledgement { sequence_number: 7 }), context).unwrap();
    RTMPWriter::write(RTMPMessageType::WindowAcknowledgementSize(WindowAcknowledgementSize { size: 8 }), context).unwrap();
    RTMPWriter::write(
        RTMPMessageType::SetPeerBandwidth(SetPeerBandwidth { size: 9, limit_type: PeerBandwidthLimitType::Dynamic }),
        context,
    )
    .unwrap();
    RTMPWriter::write(RTMPMessageType::UserControlMessage(UserControlMessage::PingRequest { timestamp: 1 }), context).unwrap();
    RTMPWriter::write(
        RTMPMessageType::AMF0Command(AMFCommandMessage {
            procedure_name: "c".to_string(),
            transaction_id: 1,
            command_object: None,
            optional_arguments: vec![],
        }),
        context,
    )
    .unwrap();
    let mut expected = wire(MessageTypeId::SetChunkSize, 2, vec![0, 0, 0x10, 0], 128);
    expected.extend(wire(MessageTypeId::Acknowledgement, 2, vec![0, 0, 0, 7], 128));
    expected.extend(wire(MessageTypeId::WindowAcknowledgementSize, 2, vec![0, 0, 0, 8], 128));
    expected.extend(wire(MessageTypeId::SetPeerBandwidth, 2, vec![0, 0, 0, 9, 2], 128));
    expected.extend(wire(MessageTypeId::UserControlMessage, 2, vec![0, 6, 0, 0, 0, 1], 128));
    expected.extend(wire(
        MessageTypeId::CommandAMF0,
        3,
        vec![0x02, 0, 1, b'c', 0x00, 0x3F, 0xF0, 0, 0, 0, 0, 0, 0, 0x05],
        128,
    ));
    assert_eq!(context.transport.output, expected);
    assert_eq!(context.chunk_size, 128);
    assert!(matches!(
        RTMPWriter::write(RTMPMessageType::AMF3SharedObject("nobody".to_string()), context),
        Err(Error::UnknownSharedObject)
    ));
    assert_eq!(context.transport.output, expected);
}

#[test]
fn disconnect_closes_the_transport() {
    let calls: Calls = Rc::new(RefCell::new(Vec::new()));
    let mut connection = connection(server_answer());
    connection.connect("rtmp://host/app", recorder(&calls)).unwrap();
    assert!(connection.context.transport.connected_to.is_some());
    connection.disconnect().unwrap();
    assert!(connection.context.transport.connected_to.is_none());
}

#[test]
fn test_connect() {
    let calls: Calls = Rc::new(RefCell::new(Vec::new()));
    let mut input = server_answer();
    let mut payload = Vec::new();
    RTMPWriter::write_amf0_command(
        AMFCommandMessage {
            procedure_name: "_result".to_string(),
            transaction_id: 2,
            command_object: Some(AmfValue::Object(vec![property("fmsVer", string("FMS/3,5,7,7009"))])),
            optional_arguments: vec![AmfValue::Object(vec![property("level", string("status"))])],
        },
        &mut payload,
    )
    .unwrap();
    input.extend(wire(MessageTypeId::WindowAcknowledgementSize, 2, vec![0, 0x26, 0x25, 0xA0], 128));
    input.extend(wire(MessageTypeId::SetPeerBandwidth, 2, vec![0, 0x26, 0x25, 0xA0, 2], 128));
    input.extend(wire(MessageTypeId::SetChunkSize, 2, vec![0, 0, 0x10, 0], 128));
    input.extend(wire(MessageTypeId::CommandAMF0, 3, payload, 4096));
    let mut connection = connection(input);

    let result = connection.connect("rtmp://127.0.0.1/", recorder(&calls));

    assert!(result.is_ok());

    for _ in 0..4 {
        connection.process_messages().unwrap();
    }
    assert_eq!(connection.context.transport.connected_to, Some(("127.0.0.1".to_string(), 1935)));
    assert_eq!(connection.context.connection_args.as_ref().unwrap().app, "");
    assert_eq!(calls.borrow().len(), 1);
    println!("properties: {:?}", calls.borrow()[0].1);
    println!("information: {:?}", calls.borrow()[0].2);
    assert!(matches!(connection.process_messages(), Err(Error::Io(_))));
}
