use rtmp_client::chunk::packets::{
    ChunkBasicHeader, ChunkImportance, ChunkMessageHeader, MessageTypeId,
};
use rtmp_client::chunk::writer::RTMPChunker;

const TYPE_IDS: [(u8, MessageTypeId); 15] = [
    (1, MessageTypeId::SetChunkSize),
    (2, MessageTypeId::AbortMessage),
    (3, MessageTypeId::Acknowledgement),
    (4, MessageTypeId::UserControlMessage),
    (5, MessageTypeId::WindowAcknowledgementSize),
    (6, MessageTypeId::SetPeerBandwidth),
    (8, MessageTypeId::AudioData),
    (9, MessageTypeId::VideoData),
    (15, MessageTypeId::DataAMF3),
    (16, MessageTypeId::SharedObjectAMF3),
    (17, MessageTypeId::CommandAMF3),
    (18, MessageTypeId::DataAMF0),
    (19, MessageTypeId::SharedObjectAMF0),
    (20, MessageTypeId::CommandAMF0),
    (22, MessageTypeId::AggregateMessage),
];

#[test]
fn message_type_ids_follow_the_table() {
    for (value, id) in TYPE_IDS {
        assert_eq!(id.to_u8(), value);
        assert_eq!(MessageTypeId::from_u8(value), Some(id));
        assert_eq!(MessageTypeId::try_from(value), Ok(id));
    }
}

#[test]
fn every_other_byte_is_no_message_type() {
    for value in 0..=255u8 {
        let known = TYPE_IDS.iter().any(|(v, _)| *v == value);
        assert_eq!(MessageTypeId::from_u8(value).is_some(), known);
        if !known {
            assert_eq!(MessageTypeId::try_from(value), Err("Invalid message type ID"));
        }
    }
}

#[test]
fn chunk_importance_ids() {
    assert_eq!(ChunkImportance::ProtocolUserControl.to_u32(), 2);
    assert_eq!(ChunkImportance::CommandAMF0AMF3.to_u32(), 3);
    assert_eq!(ChunkImportance::Audio.to_u32(), 4);
    assert_eq!(ChunkImportance::Video.to_u32(), 5);
    assert_eq!(ChunkImportance::DataAMF0AMF3.to_u32(), 6);
    assert_eq!(ChunkImportance::try_from(3), Ok(ChunkImportance::CommandAMF0AMF3));
    assert_eq!(ChunkImportance::try_from(1), Err("Invalid chunk importance ID"));
    assert_eq!(ChunkImportance::try_from(7), Err("Invalid chunk importance ID"));
    assert_eq!(ChunkImportance::from_u8(6), Some(ChunkImportance::DataAMF0AMF3));
    assert_eq!(ChunkImportance::from_u8(0), None);
}

#[test]
fn outbound_chunk_stream_by_message_type() {
    for id in [
        MessageTypeId::SetChunkSize,
        MessageTypeId::AbortMessage,
        MessageTypeId::Acknowledgement,
        MessageTypeId::UserControlMessage,
        MessageTypeId::WindowAcknowledgementSize,
        MessageTypeId::SetPeerBandwidth,
    ] {
        assert_eq!(ChunkImportance::for_message_type(id), ChunkImportance::ProtocolUserControl);
    }
    assert_eq!(ChunkImportance::for_message_type(MessageTypeId::CommandAMF0), ChunkImportance::CommandAMF0AMF3);
    assert_eq!(ChunkImportance::for_message_type(MessageTypeId::CommandAMF3), ChunkImportance::CommandAMF0AMF3);
    assert_eq!(ChunkImportance::for_message_type(MessageTypeId::AudioData), ChunkImportance::Audio);
    assert_eq!(ChunkImportance::for_message_type(MessageTypeId::VideoData), ChunkImportance::Video);
    for id in [
        MessageTypeId::DataAMF3,
        MessageTypeId::DataAMF0,
        MessageTypeId::SharedObjectAMF3,
        MessageTypeId::SharedObjectAMF0,
    ] {
        assert_eq!(ChunkImportance::for_message_type(id), ChunkImportance::DataAMF0AMF3);
    }
}

fn basic(format: u8, id: u32) -> Vec<u8> {
    let mut buffer = Vec::new();
    RTMPChunker::write_basic_header(
        &mut buffer,
        ChunkBasicHeader { chunk_header_format: format, chunk_stream_id: id },
    );
    buffer
}

#[test]
fn basic_header_takes_the_shortest_form() {
    assert_eq!(basic(0, 2), vec![0x02]);
    assert_eq!(basic(0, 3), vec![0x03]);
    assert_eq!(basic(3, 3), vec![0xC3]);
    assert_eq!(basic(1, 63), vec![0x7F]);
    assert_eq!(basic(0, 64), vec![0x00, 0x00]);
    assert_eq!(basic(2, 319), vec![0x80, 0xFF]);
    assert_eq!(basic(0, 320), vec![0x01, 0x00, 0x01]);
    assert_eq!(basic(3, 65599), vec![0xC1, 0xFF, 0xFF]);
    assert_eq!(basic(0, 64 + 0x1234), vec![0x01, 0x34, 0x12]);
    for id in 2..=65599u32 {
        let expected = if id <= 63 { 1 } else if id <= 319 { 2 } else { 3 };
        assert_eq!(basic(0, id).len(), expected);
    }
}

#[test]
fn message_header_fields_in_wire_order() {
    let mut buffer = Vec::new();
    RTMPChunker::write_message_header(
        &mut buffer,
        ChunkMessageHeader::Type0 {
            absolute_timestamp: 0x010203,
            message_length: 0x040506,
            message_type_id: MessageTypeId::CommandAMF0,
            message_stream_id: 0x0A0B0C0D,
        },
    );
    assert_eq!(buffer, vec![1, 2, 3, 4, 5, 6, 0x14, 0x0D, 0x0C, 0x0B, 0x0A]);
    let mut buffer = Vec::new();
    RTMPChunker::write_message_header(
        &mut buffer,
        ChunkMessageHeader::Type1 {
            timestamp_delta: 7,
            message_length: 300,
            message_type_id: MessageTypeId::AudioData,
        },
    );
    assert_eq!(buffer, vec![0, 0, 7, 0, 1, 44, 8]);
    let mut buffer = Vec::new();
    RTMPChunker::write_message_header(&mut buffer, ChunkMessageHeader::Type2 { timestamp_delta: 0xFFFFFF });
    assert_eq!(buffer, vec![0xFF, 0xFF, 0xFF]);
    let mut buffer = vec![9];
    RTMPChunker::write_message_header(&mut buffer, ChunkMessageHeader::Type3);
    assert_eq!(buffer, vec![9]);
}

#[test]
fn message_header_writes_the_low_24_bits() {
    let mut buffer = Vec::new();
    RTMPChunker::write_message_header(&mut buffer, ChunkMessageHeader::Type2 { timestamp_delta: 0xAB01_0203 });
    assert_eq!(buffer, vec![1, 2, 3]);
}

#[test]
fn extended_timestamp_is_announced_by_the_marker() {
    let t0 = |t| ChunkMessageHeader::Type0 {
        absolute_timestamp: t,
        message_length: 1,
        message_type_id: MessageTypeId::AudioData,
        message_stream_id: 1,
    };
    assert!(t0(0xFFFFFF).is_extended_timestamp());
    assert!(!t0(0xFFFFFE).is_extended_timestamp());
    assert!(!t0(0).is_extended_timestamp());
    let t1 = |t| ChunkMessageHeader::Type1 {
        timestamp_delta: t,
        message_length: 1,
        message_type_id: MessageTypeId::AudioData,
    };
    assert!(t1(0xFFFFFF).is_extended_timestamp());
    assert!(!t1(5).is_extended_timestamp());
    assert!(ChunkMessageHeader::Type2 { timestamp_delta: 0xFFFFFF }.is_extended_timestamp());
    assert!(!ChunkMessageHeader::Type2 { timestamp_delta: 1 }.is_extended_timestamp());
    assert!(!ChunkMessageHeader::Type3.is_extended_timestamp());
    assert_eq!(t0(1).format(), 0);
    assert_eq!(t1(1).format(), 1);
    assert_eq!(ChunkMessageHeader::Type2 { timestamp_delta: 1 }.format(), 2);
    assert_eq!(ChunkMessageHeader::Type3.format(), 3);
}
