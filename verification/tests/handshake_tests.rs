use rtmp_client::amf::AmfValue;
use rtmp_client::context::{allocate_net_connection_context, NetConnectionContext};
use rtmp_client::errors::Error;
use rtmp_client::handshake::errors::HandshakeError;
use rtmp_client::handshake::packets::{
    C1S1Packet, C2S2Packet, ClientAckAndConnect, ClientHello, ServerHelloAck, Version,
};
use rtmp_client::handshake::RTMPHandshake;
use rtmp_client::net_connection::transaction_manager::TransactionResult;
use rtmp_client::transport::Transport;

type Callback = Box<dyn Fn(TransactionResult, AmfValue, Vec<AmfValue>)>;

struct Loopback {
    input: Vec<u8>,
    pos: usize,
    output: Vec<u8>,
}

impl Transport for Loopback {
    fn connect(&mut self, _ip: String, _port: u16) -> Result<(), std::io::Error> {
        Ok(())
    }

    fn disconnect(&mut self) -> Result<(), std::io::Error> {
        Ok(())
    }

    fn read_data(&mut self, size: usize) -> Result<Vec<u8>, std::io::Error> {
        if self.input.len() - self.pos < size {
            return Err(std::io::Error::new(std::io::ErrorKind::UnexpectedEof, "short read"));
        }
        let out = self.input[self.pos..self.pos + size].to_vec();
        self.pos += size;
        Ok(out)
    }

    fn write_data(&mut self, data: Vec<u8>) -> Result<(), std::io::Error> {
        self.output.extend_from_slice(&data);
        Ok(())
    }
}

fn context(input: Vec<u8>) -> NetConnectionContext<Loopback, Callback> {
    allocate_net_connection_context(Loopback { input, pos: 0, output: Vec::new() })
}

fn s1_random() -> Vec<u8> {
    (0..1528).map(|i| (i % 251) as u8).collect()
}

fn server_answer(version: u8, s1_time: [u8; 4], echo: u8) -> Vec<u8> {
    let mut answer = vec![version];
    answer.extend_from_slice(&s1_time);
    answer.extend_from_slice(&[9, 0, 124, 2]);
    answer.extend_from_slice(&s1_random());
    answer.extend_from_slice(&s1_time);
    answer.extend_from_slice(&[0, 0, 0, 0]);
    answer.extend(std::iter::repeat(echo).take(1528));
    answer
}

fn expected_hello() -> Vec<u8> {
    let mut hello = vec![3, 0, 0, 0, 0, 0, 0, 0, 0];
    hello.extend(std::iter::repeat(b'x').take(1528));
    hello
}

#[test]
fn handshake_golden_path() {
    let mut ctx = context(server_answer(3, [0x11, 0x22, 0x33, 0x44], b'x'));
    RTMPHandshake::new().do_handshake(&mut ctx).unwrap();
    let mut expected = expected_hello();
    expected.extend_from_slice(&[0x11, 0x22, 0x33, 0x44, 0, 0, 0, 0]);
    expected.extend_from_slice(&s1_random());
    assert_eq!(ctx.transport.output.len(), 1537 + 1536);
    assert_eq!(ctx.transport.output, expected);
    assert_eq!(ctx.transport.pos, 3073);
    assert_eq!(ctx.bytes_received, 3073);
}

#[test]
fn handshake_refuses_another_version() {
    let mut ctx = context(server_answer(4, [0; 4], b'x'));
    assert!(matches!(
        RTMPHandshake::new().do_handshake(&mut ctx),
        Err(Error::Handshake(HandshakeError::VersionError(4)))
    ));
    assert_eq!(ctx.transport.output, expected_hello());
}

#[test]
fn handshake_refuses_a_wrong_echo() {
    let mut answer = server_answer(3, [0; 4], b'x');
    answer[3072] = b'y';
    let mut ctx = context(answer);
    match RTMPHandshake::new().do_handshake(&mut ctx) {
        Err(Error::Handshake(HandshakeError::EchoMismatch { expected, got })) => {
            assert_eq!(expected, [b'x'; 1528]);
            assert_eq!(got[1527], b'y');
            assert_eq!(&got[..1527], &[b'x'; 1527][..]);
        }
        other => panic!("unexpected {:?}", other),
    }
    assert_eq!(ctx.transport.output, expected_hello());
}

#[test]
fn handshake_fails_on_a_short_read() {
    let mut ctx = context(vec![3; 100]);
    assert!(matches!(RTMPHandshake::new().do_handshake(&mut ctx), Err(Error::Io(_))));
}

#[test]
fn a_handshake_runs_once() {
    let mut input = server_answer(3, [0; 4], b'x');
    input.extend(server_answer(3, [0; 4], b'x'));
    let mut ctx = context(input);
    let mut handshake = RTMPHandshake::new();
    handshake.do_handshake(&mut ctx).unwrap();
    let sent = ctx.transport.output.len();
    assert!(matches!(
        handshake.do_handshake(&mut ctx),
        Err(Error::Handshake(HandshakeError::HandshakeAlreadyDone))
    ));
    assert_eq!(ctx.transport.output.len(), sent);
    assert_eq!(ctx.transport.pos, 3073);
}

#[test]
fn client_hello_is_version_time_zeros_and_x() {
    let hello = RTMPHandshake::new().create_client_hello();
    assert_eq!(hello.c0.version, 3);
    assert_eq!(hello.c1.time, 0);
    assert_eq!(hello.c1.version, [0, 0, 0, 0]);
    assert_eq!(hello.c1.random_data, [b'x'; 1528]);
    assert_eq!(hello.to_bytes(), expected_hello());
}

#[test]
fn client_ack_mirrors_s1() {
    let mut random = [0u8; 1528];
    random[0] = 1;
    random[1527] = 2;
    let s1 = C1S1Packet { time: 0xDEADBEEF, version: [1, 2, 3, 4], random_data: random };
    let ack = RTMPHandshake::new().create_client_ack_and_connect(s1);
    assert_eq!(ack.c2, C2S2Packet { time: 0xDEADBEEF, time2: 0, random_echo: random });
}

#[test]
fn answer_server_hello_names_the_fault() {
    let mut ctx = context(vec![]);
    let mut handshake = RTMPHandshake::new();
    assert!(matches!(handshake.do_handshake(&mut ctx), Err(Error::Io(_))));
    assert!(matches!(
        handshake.answer_server_hello(&[]),
        Err(Error::Handshake(HandshakeError::NoData))
    ));
    assert!(matches!(
        handshake.answer_server_hello(&[3; 3072]),
        Err(Error::Incomplete { needed: 3073 })
    ));
    let ack = handshake.answer_server_hello(&server_answer(3, [0, 0, 0, 7], b'x')).unwrap();
    assert_eq!(ack.c2.time, 7);
    assert_eq!(ack.c2.time2, 0);
    assert_eq!(&ack.c2.random_echo[..], &s1_random()[..]);
}

#[test]
fn an_answer_without_a_hello_has_nothing_to_answer() {
    let mut handshake = RTMPHandshake::new();
    assert!(matches!(
        handshake.answer_server_hello(&server_answer(3, [0; 4], b'x')),
        Err(Error::Handshake(HandshakeError::NoData))
    ));
}

#[test]
fn version_packet() {
    assert_eq!(Version::new(3).to_bytes(), [3]);
    assert!(Version::new(3).is_valid());
    assert!(!Version::new(2).is_valid());
    assert!(!Version::new(4).is_valid());
    assert_eq!(Version::default().version, 3);
    let (rest, v) = Version::from_bytes(&[5, 6]).unwrap();
    assert_eq!((rest, v.version), (&[6u8][..], 5));
    assert!(matches!(Version::from_bytes(&[]), Err(Error::Incomplete { needed: 1 })));
}

#[test]
fn c1s1_packet_layout() {
    let mut random = [0u8; 1528];
    random[0] = 0xAA;
    random[1527] = 0xBB;
    let p = C1S1Packet::new(0x01020304, random);
    assert_eq!(p.version, [0, 0, 0, 0]);
    let bytes = p.to_bytes();
    assert_eq!(bytes.len(), 1536);
    assert_eq!(&bytes[..9], &[1, 2, 3, 4, 0, 0, 0, 0, 0xAA]);
    assert_eq!(bytes[1535], 0xBB);
    let mut longer = bytes.clone();
    longer.push(0x77);
    let (rest, back) = C1S1Packet::from_bytes(&longer).unwrap();
    assert_eq!(back, p);
    assert_eq!(rest, &[0x77]);
    assert!(matches!(C1S1Packet::from_bytes(&bytes[..1535]), Err(Error::Incomplete { needed: 1536 })));
    let d = C1S1Packet::default();
    assert_eq!((d.time, d.version, d.random_data), (0, [0; 4], [0; 1528]));
}

#[test]
fn c2s2_packet_layout() {
    let mut echo = [0u8; 1528];
    echo[0] = 0xAA;
    echo[1527] = 0xBB;
    let p = C2S2Packet::new(0x01020304, 0x05060708, echo);
    let bytes = p.to_bytes();
    assert_eq!(bytes.len(), 1536);
    assert_eq!(&bytes[..9], &[1, 2, 3, 4, 5, 6, 7, 8, 0xAA]);
    assert_eq!(bytes[1535], 0xBB);
    let (rest, back) = C2S2Packet::from_bytes(&bytes).unwrap();
    assert_eq!(back, p);
    assert!(rest.is_empty());
    assert!(matches!(C2S2Packet::from_bytes(&[]), Err(Error::Incomplete { needed: 1536 })));
    let d = C2S2Packet::default();
    assert_eq!((d.time, d.time2, d.random_echo), (0, 0, [0; 1528]));
}

#[test]
fn combined_packets() {
    let hello = ClientHello::new(3, 7, [1; 1528]);
    let bytes = hello.to_bytes();
    assert_eq!(bytes.len(), 1537);
    assert_eq!(&bytes[..10], &[3, 0, 0, 0, 7, 0, 0, 0, 0, 1]);
    let answer = server_answer(3, [0, 0, 1, 0], b'x');
    let (rest, parsed) = ServerHelloAck::from_bytes(&answer).unwrap();
    assert!(rest.is_empty());
    assert_eq!(parsed.s0.version, 3);
    assert_eq!(parsed.s1.time, 256);
    assert_eq!(parsed.s1.version, [9, 0, 124, 2]);
    assert_eq!(&parsed.s1.random_data[..], &s1_random()[..]);
    assert_eq!(parsed.s2.time, 256);
    assert_eq!(parsed.s2.time2, 0);
    assert_eq!(parsed.s2.random_echo, [b'x'; 1528]);
    assert!(matches!(ServerHelloAck::from_bytes(&answer[..3072]), Err(Error::Incomplete { needed: 3073 })));
    let ack = ClientAckAndConnect::new(parsed.s2);
    assert_eq!(ack.to_bytes(), parsed.s2.to_bytes());
    assert_eq!(ack.to_bytes().len(), 1536);
}

#[test]
fn handshake_error_messages() {
    assert_eq!(HandshakeError::NoData.message(), "No data provided");
    assert_eq!(HandshakeError::VersionError(4).message(), "Version mismatch");
    assert_eq!(HandshakeError::HandshakeAlreadyDone.message(), "Handshake has already been done");
    assert_eq!(
        HandshakeError::EchoMismatch { expected: [0; 1528], got: [1; 1528] }.message(),
        "Random Echo mismatch"
    );
}
