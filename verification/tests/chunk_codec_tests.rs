use rtmp_client::amf::AmfValue;
use rtmp_client::chunk::packets::{ChunkBasicHeader, ChunkMessageHeader, ExtendedTimestamp, MessageTypeId};
use rtmp_client::chunk::reader::RTMPDechunker;
use rtmp_client::chunk::state::ChunkStreamState;
use rtmp_client::chunk::writer::RTMPChunker;
use rtmp_client::context::{allocate_net_connection_context, NetConnectionContext};
use rtmp_client::errors::Error;
use rtmp_client::net_connection::packets::RTMPMessage;
use rtmp_client::net_connection::transaction_manager::TransactionResult;
use rtmp_client::transport::Transport;

type Callback = Box<dyn Fn(TransactionResult, AmfValue, Vec<AmfValue>)>;

struct Loopback {
    input: Vec<u8>,
    pos: usize,
    output: Vec<u8>,
}

impl Transport for Loopback {
    fn connect(&mut self, _ip: String, _port: u16) -> Result<(), std::io::Error> {
        Ok(())
    }

    fn disconnect(&mut self) -> Result<(), std::io::Error> {
        Ok(())
    }

    fn read_data(&mut self, size: usize) -> Result<Vec<u8>, std::io::Error> {
        if self.input.len() - self.pos < size {
            return Err(std::io::Error::new(std::io::ErrorKind::UnexpectedEof, "short read"));
        }
        let out = self.input[self.pos..self.pos + size].to_vec();
        self.pos += size;
        Ok(out)
    }

    fn write_data(&mut self, data: Vec<u8>) -> Result<(), std::io::Error> {
        self.output.extend_from_slice(&data);
        Ok(())
    }
}

fn context(input: Vec<u8>) -> NetConnectionContext<Loopback, Callback> {
    allocate_net_connection_context(Loopback { input, pos: 0, output: Vec::new() })
}

fn message(csid: u32, timestamp: u32, payload: Vec<u8>) -> RTMPMessage {
    RTMPMessage {
        timestamp,
        message_type_id: MessageTypeId::CommandAMF0,
        message_stream_id: 0x01020304,
        chunk_stream_id: csid,
        payload,
    }
}

fn pattern(n: usize) -> Vec<u8> {
    (0..n).map(|i| (i * 7 + 3) as u8).collect()
}

#[test]
fn single_chunk_type0_message() {
    let mut ctx = context(vec![
        0x03, 0x00, 0x00, 0x00, 0x00, 0x00, 0x07, 0x14, 0x00, 0x00, 0x00, 0x00, 0x02, 0x00, 0x04,
        0x74, 0x65, 0x73, 0x74,
    ]);
    let m = RTMPDechunker::read_chunks(&mut ctx).unwrap();
    assert_eq!(m.message_type_id, MessageTypeId::CommandAMF0);
    assert_eq!(m.chunk_stream_id, 3);
    assert_eq!(m.message_stream_id, 0);
    assert_eq!(m.timestamp, 0);
    assert_eq!(m.payload, vec![0x02, 0x00, 0x04, b't', b'e', b's', b't']);
    assert_eq!(ctx.transport.pos, 19);
    assert_eq!(ctx.bytes_received, 19);
}

#[test]
fn payload_is_as_long_as_the_header_declares() {
    let mut ctx = context(vec![
        0x03, 0x00, 0x00, 0x00, 0x00, 0x00, 0x04, 0x14, 0x00, 0x00, 0x00, 0x00, 0x02, 0x00, 0x04,
        0x74, 0x65, 0x73, 0x74,
    ]);
    let m = RTMPDechunker::read_chunks(&mut ctx).unwrap();
    assert_eq!(m.message_type_id, MessageTypeId::CommandAMF0);
    assert_eq!(m.chunk_stream_id, 3);
    assert_eq!(m.message_stream_id, 0);
    assert_eq!(m.payload, vec![0x02, 0x00, 0x04, b't']);
    assert_eq!(ctx.transport.pos, 16);
}

#[test]
fn fragmented_payload_with_default_chunk_size() {
    let payload = pattern(200);
    let mut wire = vec![0x03, 0, 0, 0, 0, 0, 200, 0x14, 0, 0, 0, 0];
    wire.extend_from_slice(&payload[..128]);
    wire.push(0xC3);
    wire.extend_from_slice(&payload[128..]);
    let mut ctx = context(wire);
    let m = RTMPDechunker::read_chunks(&mut ctx).unwrap();
    assert_eq!(m.payload, payload);
    assert_eq!(m.chunk_stream_id, 3);
    assert_eq!(ctx.transport.pos, 12 + 128 + 1 + 72);
}

#[test]
fn fragment_200_bytes_at_128() {
    let payload = pattern(200);
    let wire = RTMPChunker::fragment(&message(3, 0, payload.clone()), 128).unwrap();
    let mut expected = vec![0x03, 0, 0, 0, 0, 0, 200, 0x14, 4, 3, 2, 1];
    expected.extend_from_slice(&payload[..128]);
    expected.push(0xC3);
    expected.extend_from_slice(&payload[128..]);
    assert_eq!(wire, expected);
}

#[test]
fn fragment_5000_bytes_at_4096() {
    let payload = pattern(5000);
    let wire = RTMPChunker::fragment(&message(3, 0, payload.clone()), 4096).unwrap();
    assert_eq!(wire.len(), 12 + 4096 + 1 + 904);
    assert_eq!(&wire[..12], &[0x03, 0, 0, 0, 0, 0x13, 0x88, 0x14, 4, 3, 2, 1]);
    assert_eq!(&wire[12..12 + 4096], &payload[..4096]);
    assert_eq!(wire[12 + 4096], 0xC3);
    assert_eq!(&wire[12 + 4096 + 1..], &payload[4096..]);
}

#[test]
fn number_of_chunks_is_the_ceiling() {
    for (len, size, chunks) in [(1usize, 128u32, 1usize), (128, 128, 1), (129, 128, 2), (256, 128, 2), (257, 128, 3), (10, 1, 10)] {
        let wire = RTMPChunker::fragment(&message(3, 0, pattern(len)), size).unwrap();
        assert_eq!(wire.len(), 12 + len + (chunks - 1));
    }
}

#[test]
fn empty_message_is_no_chunk() {
    assert_eq!(RTMPChunker::fragment(&message(3, 0, vec![]), 128).unwrap(), Vec::<u8>::new());
}

#[test]
fn fragment_refuses_what_the_wire_cannot_carry() {
    assert!(matches!(RTMPChunker::fragment(&message(1, 0, vec![1]), 128), Err(Error::InvalidChunkStreamId(1))));
    assert!(matches!(RTMPChunker::fragment(&message(0, 0, vec![1]), 128), Err(Error::InvalidChunkStreamId(0))));
    assert!(matches!(RTMPChunker::fragment(&message(65600, 0, vec![1]), 128), Err(Error::InvalidChunkStreamId(65600))));
    assert!(matches!(RTMPChunker::fragment(&message(3, 0, vec![0; 0x100_0000]), 128), Err(Error::MessageTooLong)));
    assert!(RTMPChunker::fragment(&message(3, 0, vec![0; 0xFF_FFFF]), 0x7FFF_FFFF).is_ok());
}

#[test]
fn extended_timestamp_travels_with_every_chunk() {
    let payload = pattern(5);
    let wire = RTMPChunker::fragment(&message(3, 0x0100_0000, payload.clone()), 3).unwrap();
    let mut expected = vec![0x03, 0xFF, 0xFF, 0xFF, 0, 0, 5, 0x14, 4, 3, 2, 1, 1, 0, 0, 0];
    expected.extend_from_slice(&payload[..3]);
    expected.extend_from_slice(&[0xC3, 1, 0, 0, 0]);
    expected.extend_from_slice(&payload[3..]);
    assert_eq!(wire, expected);
    let at_marker = RTMPChunker::fragment(&message(3, 0xFF_FFFF, vec![9]), 128).unwrap();
    assert_eq!(at_marker, vec![0x03, 0xFF, 0xFF, 0xFF, 0, 0, 1, 0x14, 4, 3, 2, 1, 0, 0xFF, 0xFF, 0xFF, 9]);
    let below = RTMPChunker::fragment(&message(3, 0xFF_FFFE, vec![9]), 128).unwrap();
    assert_eq!(below, vec![0x03, 0xFF, 0xFF, 0xFE, 0, 0, 1, 0x14, 4, 3, 2, 1, 9]);
}

#[test]
fn written_messages_are_read_back() {
    for (csid, timestamp, len, size) in [
        (3u32, 0u32, 1usize, 128u32),
        (2, 5, 128, 128),
        (63, 0xFF_FFFE, 129, 128),
        (64, 0xFF_FFFF, 1000, 128),
        (319, 0x0100_0000, 300, 7),
        (320, u32::MAX, 5000, 4096),
        (65599, 77, 40, 1),
    ] {
        let payload = pattern(len);
        let sent = message(csid, timestamp, payload);
        let mut wire = RTMPChunker::fragment(&sent, size).unwrap();
        let length = wire.len();
        wire.extend_from_slice(&[0xEE, 0xEE]);
        let mut ctx = context(wire);
        ctx.chunk_size = size;
        let got = RTMPDechunker::read_chunks(&mut ctx).unwrap();
        assert_eq!(got, sent);
        assert_eq!(ctx.transport.pos, length);
    }
}

#[test]
fn write_chunks_sends_the_fragments() {
    let mut ctx = context(vec![]);
    RTMPChunker::write_chunks(message(3, 0, pattern(200)), &mut ctx).unwrap();
    assert_eq!(ctx.transport.output, RTMPChunker::fragment(&message(3, 0, pattern(200)), 128).unwrap());
    assert!(matches!(RTMPChunker::write_chunks(message(1, 0, vec![1]), &mut ctx), Err(Error::InvalidChunkStreamId(1))));
    assert_eq!(ctx.transport.output.len(), 12 + 200 + 1);
}

#[test]
fn chunk_streams_interleave() {
    let a = pattern(200);
    let b: Vec<u8> = pattern(150).iter().map(|x| x ^ 0xFF).collect();
    let mut wire = vec![0x03, 0, 0, 1, 0, 0, 200, 0x14, 0, 0, 0, 0];
    wire.extend_from_slice(&a[..128]);
    wire.extend_from_slice(&[0x04, 0, 0, 2, 0, 0, 150, 0x08, 1, 0, 0, 0]);
    wire.extend_from_slice(&b[..128]);
    wire.push(0xC3);
    wire.extend_from_slice(&a[128..]);
    wire.push(0xC4);
    wire.extend_from_slice(&b[128..]);
    let mut ctx = context(wire);
    let first = RTMPDechunker::read_chunks(&mut ctx).unwrap();
    assert_eq!((first.chunk_stream_id, first.timestamp, first.message_type_id), (3, 1, MessageTypeId::CommandAMF0));
    assert_eq!(first.payload, a);
    let second = RTMPDechunker::read_chunks(&mut ctx).unwrap();
    assert_eq!((second.chunk_stream_id, second.timestamp, second.message_type_id, second.message_stream_id), (4, 2, MessageTypeId::AudioData, 1));
    assert_eq!(second.payload, b);
}

#[test]
fn headers_inherit_from_the_chunk_before() {
    let mut wire = vec![0x05, 0, 0, 10, 0, 0, 2, 0x09, 7, 0, 0, 0, 0xA1, 0xA2];
    wire.extend_from_slice(&[0x45, 0, 0, 5, 0, 0, 3, 0x08, 0xB1, 0xB2, 0xB3]);
    wire.extend_from_slice(&[0x85, 0, 0, 6, 0xC1, 0xC2, 0xC3]);
    wire.extend_from_slice(&[0xC5, 0xD1, 0xD2, 0xD3]);
    let mut ctx = context(wire);
    let m0 = RTMPDechunker::read_chunks(&mut ctx).unwrap();
    assert_eq!((m0.timestamp, m0.message_type_id, m0.message_stream_id, m0.payload.clone()), (10, MessageTypeId::VideoData, 7, vec![0xA1, 0xA2]));
    let m1 = RTMPDechunker::read_chunks(&mut ctx).unwrap();
    assert_eq!((m1.timestamp, m1.message_type_id, m1.message_stream_id, m1.payload.clone()), (15, MessageTypeId::AudioData, 7, vec![0xB1, 0xB2, 0xB3]));
    let m2 = RTMPDechunker::read_chunks(&mut ctx).unwrap();
    assert_eq!((m2.timestamp, m2.message_type_id, m2.message_stream_id, m2.payload.clone()), (21, MessageTypeId::AudioData, 7, vec![0xC1, 0xC2, 0xC3]));
    let m3 = RTMPDechunker::read_chunks(&mut ctx).unwrap();
    assert_eq!((m3.timestamp, m3.message_type_id, m3.message_stream_id, m3.payload.clone()), (27, MessageTypeId::AudioData, 7, vec![0xD1, 0xD2, 0xD3]));
}

#[test]
fn type3_after_type0_repeats_the_timestamp_as_delta() {
    let wire = vec![0x05, 0, 0, 10, 0, 0, 1, 0x09, 7, 0, 0, 0, 0xA1, 0xC5, 0xA2];
    let mut ctx = context(wire);
    assert_eq!(RTMPDechunker::read_chunks(&mut ctx).unwrap().timestamp, 10);
    let next = RTMPDechunker::read_chunks(&mut ctx).unwrap();
    assert_eq!((next.timestamp, next.payload), (20, vec![0xA2]));
}

#[test]
fn timestamps_wrap_round() {
    let mut wire = vec![0x05, 0xFF, 0xFF, 0xFF, 0, 0, 1, 0x09, 7, 0, 0, 0, 0xFF, 0xFF, 0xFF, 0xFE, 0xA1];
    wire.extend_from_slice(&[0x85, 0, 0, 5, 0xA2]);
    let mut ctx = context(wire);
    assert_eq!(RTMPDechunker::read_chunks(&mut ctx).unwrap().timestamp, 0xFFFF_FFFE);
    assert_eq!(RTMPDechunker::read_chunks(&mut ctx).unwrap().timestamp, 3);
}

#[test]
fn type3_reads_extended_timestamp_when_the_starter_had_one() {
    let mut wire = vec![0x03, 0xFF, 0xFF, 0xFF, 0, 0, 3, 0x14, 0, 0, 0, 0, 0x01, 0x00, 0x00, 0x00, 0xA1, 0xA2];
    wire.extend_from_slice(&[0xC3, 0x01, 0x00, 0x00, 0x00, 0xA3]);
    let mut ctx = context(wire);
    ctx.chunk_size = 2;
    let m = RTMPDechunker::read_chunks(&mut ctx).unwrap();
    assert_eq!(m.timestamp, 0x0100_0000);
    assert_eq!(m.payload, vec![0xA1, 0xA2, 0xA3]);
    assert_eq!(ctx.transport.pos, 24);
}

#[test]
fn long_forms_of_the_basic_header_are_read() {
    let mut ctx = context(vec![0x00, 0x05, 0, 0, 0, 0, 0, 1, 0x14, 0, 0, 0, 0, 0x77]);
    assert_eq!(RTMPDechunker::read_chunks(&mut ctx).unwrap().chunk_stream_id, 69);
    let mut ctx = context(vec![0x01, 0x34, 0x12, 0, 0, 0, 0, 0, 1, 0x14, 0, 0, 0, 0, 0x77]);
    assert_eq!(RTMPDechunker::read_chunks(&mut ctx).unwrap().chunk_stream_id, 64 + 0x1234);
    let mut ctx = context(vec![0xC1, 0xFF, 0xFF]);
    assert_eq!(
        RTMPDechunker::read_basic_header(&mut ctx).unwrap(),
        ChunkBasicHeader { chunk_header_format: 3, chunk_stream_id: 65599 }
    );
    let mut ctx = context(vec![0x81, 0x00, 0x00]);
    assert_eq!(
        RTMPDechunker::read_basic_header(&mut ctx).unwrap(),
        ChunkBasicHeader { chunk_header_format: 2, chunk_stream_id: 64 }
    );
}

#[test]
fn message_headers_are_read_by_format() {
    let mut ctx = context(vec![0, 0, 1, 0, 0, 2, 0x14, 4, 3, 2, 1, 0, 0, 9, 0, 1, 0, 0x12, 0xFF, 0xFF, 0xFF]);
    assert_eq!(
        RTMPDechunker::read_message_header(&mut ctx, 0).unwrap(),
        ChunkMessageHeader::Type0 {
            absolute_timestamp: 1,
            message_length: 2,
            message_type_id: MessageTypeId::CommandAMF0,
            message_stream_id: 0x01020304,
        }
    );
    assert_eq!(
        RTMPDechunker::read_message_header(&mut ctx, 1).unwrap(),
        ChunkMessageHeader::Type1 { timestamp_delta: 9, message_length: 256, message_type_id: MessageTypeId::DataAMF0 }
    );
    assert_eq!(
        RTMPDechunker::read_message_header(&mut ctx, 2).unwrap(),
        ChunkMessageHeader::Type2 { timestamp_delta: 0xFFFFFF }
    );
    assert_eq!(RTMPDechunker::read_message_header(&mut ctx, 3).unwrap(), ChunkMessageHeader::Type3);
    assert_eq!(ctx.transport.pos, 21);
    let mut ctx = context(vec![0x12, 0x34, 0x56, 0x78]);
    assert_eq!(RTMPDechunker::read_extended_timestamp(&mut ctx).unwrap(), ExtendedTimestamp(0x12345678));
}

#[test]
fn protocol_violations_are_reported() {
    let mut ctx = context(vec![0x03, 0, 0, 0, 0, 0, 1, 0x07, 0, 0, 0, 0, 0x77]);
    assert!(matches!(RTMPDechunker::read_chunks(&mut ctx), Err(Error::InvalidMessageTypeId(7))));
    for (first, format) in [(0x43u8, 1u8), (0x83, 2), (0xC3, 3)] {
        let mut ctx = context(vec![first, 0, 0, 0, 0, 0, 1, 0x14, 0, 0, 0, 0]);
        match RTMPDechunker::read_chunks(&mut ctx) {
            Err(Error::NoPriorChunk { chunk_stream_id, format: f }) => assert_eq!((chunk_stream_id, f), (3, format)),
            other => panic!("unexpected {:?}", other),
        }
    }
    let mut wire = vec![0x03, 0, 0, 0, 0, 0, 200, 0x14, 0, 0, 0, 0];
    wire.extend_from_slice(&pattern(128));
    wire.extend_from_slice(&[0x03, 0, 0, 0, 0, 0, 1, 0x14, 0, 0, 0, 0, 0x77]);
    let mut ctx = context(wire);
    match RTMPDechunker::read_chunks(&mut ctx) {
        Err(Error::MessageInProgress { chunk_stream_id, format }) => assert_eq!((chunk_stream_id, format), (3, 0)),
        other => panic!("unexpected {:?}", other),
    }
}

#[test]
fn short_input_is_a_transport_error() {
    let mut ctx = context(vec![0x03, 0, 0, 0, 0, 0, 4, 0x14, 0, 0, 0, 0, 1, 2]);
    assert!(matches!(RTMPDechunker::read_chunks(&mut ctx), Err(Error::Io(_))));
    let mut ctx = context(vec![]);
    assert!(matches!(RTMPDechunker::read_chunks(&mut ctx), Err(Error::Io(_))));
}

#[test]
fn read_chunk_keeps_unfinished_messages() {
    let mut wire = vec![0x03, 0, 0, 0, 0, 0, 130, 0x14, 0, 0, 0, 0];
    wire.extend_from_slice(&pattern(128));
    wire.extend_from_slice(&[0xC3, 1, 2]);
    let mut ctx = context(wire);
    assert_eq!(RTMPDechunker::read_chunk(&mut ctx).unwrap(), None);
    let state = ctx.chunk_streams.get(&3).unwrap();
    assert_eq!((state.bytes_remaining, state.buffer.len(), state.message_length), (2, 128, 130));
    let done = RTMPDechunker::read_chunk(&mut ctx).unwrap().unwrap();
    assert_eq!(done.payload.len(), 130);
    let state = ctx.chunk_streams.get(&3).unwrap();
    assert_eq!((state.bytes_remaining, state.buffer.len(), state.message_length), (0, 0, 130));
}

#[test]
fn a_message_of_no_bytes_is_complete_at_once() {
    let mut ctx = context(vec![0x03, 0, 0, 0, 0, 0, 0, 0x14, 0, 0, 0, 0]);
    let m = RTMPDechunker::read_chunks(&mut ctx).unwrap();
    assert_eq!(m.payload, Vec::<u8>::new());
}

#[test]
fn begin_and_accept_follow_the_state() {
    let header = ChunkMessageHeader::Type0 {
        absolute_timestamp: 5,
        message_length: 3,
        message_type_id: MessageTypeId::AudioData,
        message_stream_id: 9,
    };
    let begun = ChunkStreamState::begin(None, 4, header, None).unwrap();
    assert_eq!((begun.timestamp, begun.timestamp_delta, begun.bytes_remaining), (5, 5, 3));
    let (state, message) = begun.accept(4, vec![1, 2]);
    assert_eq!(message, None);
    assert_eq!((state.bytes_remaining, state.buffer.clone()), (1, vec![1, 2]));
    let again = ChunkStreamState::begin(Some(state), 4, ChunkMessageHeader::Type3, None).unwrap();
    let (state, message) = again.accept(4, vec![3]);
    assert_eq!(message.unwrap().payload, vec![1, 2, 3]);
    assert_eq!(state.bytes_remaining, 0);
    assert!(matches!(
        ChunkStreamState::begin(None, 4, ChunkMessageHeader::Type2 { timestamp_delta: 1 }, None),
        Err(Error::NoPriorChunk { chunk_stream_id: 4, format: 2 })
    ));
}

#[test]
fn decode_message_header_reports_the_bad_byte() {
    assert!(matches!(
        RTMPDechunker::decode_message_header(1, &[0, 0, 0, 0, 0, 0, 0x15]),
        Err(Error::InvalidMessageTypeId(0x15))
    ));
}

#[test]
fn decode_message_header_wants_all_its_bytes() {
    assert!(matches!(RTMPDechunker::decode_message_header(0, &[0; 10]), Err(Error::Incomplete { needed: 11 })));
    assert!(matches!(RTMPDechunker::decode_message_header(1, &[0; 6]), Err(Error::Incomplete { needed: 7 })));
    assert!(matches!(RTMPDechunker::decode_message_header(2, &[0; 2]), Err(Error::Incomplete { needed: 3 })));
    assert_eq!(RTMPDechunker::decode_message_header(3, &[]).unwrap(), ChunkMessageHeader::Type3);
    assert_eq!(
        RTMPDechunker::decode_message_header(2, &[0, 1, 0, 0xEE]).unwrap(),
        ChunkMessageHeader::Type2 { timestamp_delta: 256 }
    );
}
