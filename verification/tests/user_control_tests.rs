use rtmp_client::errors::Error;
use rtmp_client::net_connection::packets::{
    PeerBandwidthLimitType, SetChunkSize, SetPeerBandwidth, UserControlMessage,
    WindowAcknowledgementSize,
};
use rtmp_client::net_connection::reader::RTMPReader;
use rtmp_client::net_connection::user_control_messages::reader::UserControlMessageReader;
use rtmp_client::net_connection::writer::RTMPWriter;

const BODY: [u8; 9] = [0x01, 0x02, 0x03, 0x04, 0x05, 0x06, 0x07, 0x08, 0x09];

#[test]
fn each_event_reads_its_body() {
    assert_eq!(
        UserControlMessageReader::read_stream_begin(&BODY).unwrap(),
        (&BODY[4..], UserControlMessage::StreamBegin { stream_id: 0x01020304 })
    );
    assert_eq!(
        UserControlMessageReader::read_stream_eof(&BODY).unwrap(),
        (&BODY[4..], UserControlMessage::StreamEOF { stream_id: 0x01020304 })
    );
    assert_eq!(
        UserControlMessageReader::read_stream_dry(&BODY).unwrap(),
        (&BODY[4..], UserControlMessage::StreamDry { stream_id: 0x01020304 })
    );
    assert_eq!(
        UserControlMessageReader::read_set_buffer_length(&BODY).unwrap(),
        (&BODY[8..], UserControlMessage::SetBufferLength { stream_id: 0x01020304, buffer_length: 0x05060708 })
    );
    assert_eq!(
        UserControlMessageReader::read_stream_is_recorded(&BODY).unwrap(),
        (&BODY[4..], UserControlMessage::StreamIsRecorded { stream_id: 0x01020304 })
    );
    assert_eq!(
        UserControlMessageReader::read_ping_request(&BODY).unwrap(),
        (&BODY[4..], UserControlMessage::PingRequest { timestamp: 0x01020304 })
    );
    assert_eq!(
        UserControlMessageReader::read_ping_response(&BODY).unwrap(),
        (&BODY[4..], UserControlMessage::PingResponse { timestamp: 0x01020304 })
    );
}

#[test]
fn short_bodies_are_incomplete() {
    assert!(matches!(UserControlMessageReader::read_stream_begin(&BODY[..3]), Err(Error::Incomplete { needed: 4 })));
    assert!(matches!(UserControlMessageReader::read_stream_eof(&[]), Err(Error::Incomplete { needed: 4 })));
    assert!(matches!(UserControlMessageReader::read_stream_dry(&BODY[..1]), Err(Error::Incomplete { needed: 4 })));
    assert!(matches!(UserControlMessageReader::read_set_buffer_length(&BODY[..7]), Err(Error::Incomplete { needed: 4 })));
    assert!(matches!(UserControlMessageReader::read_set_buffer_length(&BODY[..2]), Err(Error::Incomplete { needed: 4 })));
    assert!(matches!(UserControlMessageReader::read_stream_is_recorded(&BODY[..3]), Err(Error::Incomplete { needed: 4 })));
    assert!(matches!(UserControlMessageReader::read_ping_request(&BODY[..3]), Err(Error::Incomplete { needed: 4 })));
    assert!(matches!(UserControlMessageReader::read_ping_response(&BODY[..3]), Err(Error::Incomplete { needed: 4 })));
}

fn all_events() -> Vec<(u16, UserControlMessage)> {
    vec![
        (0, UserControlMessage::StreamBegin { stream_id: 0x0A0B0C0D }),
        (1, UserControlMessage::StreamEOF { stream_id: 1 }),
        (2, UserControlMessage::StreamDry { stream_id: 2 }),
        (3, UserControlMessage::SetBufferLength { stream_id: 3, buffer_length: 3000 }),
        (4, UserControlMessage::StreamIsRecorded { stream_id: 4 }),
        (6, UserControlMessage::PingRequest { timestamp: 0xFFFFFFFF }),
        (7, UserControlMessage::PingResponse { timestamp: 0 }),
    ]
}

#[test]
fn read_picks_the_event_by_its_tag() {
    assert_eq!(
        UserControlMessageReader::read(&[0, 6, 0x12, 0x34, 0x56, 0x78, 0xEE]).unwrap(),
        (&[0xEEu8][..], UserControlMessage::PingRequest { timestamp: 0x12345678 })
    );
    assert_eq!(
        UserControlMessageReader::read(&[0, 3, 0, 0, 0, 1, 0, 0, 0, 2]).unwrap(),
        (&[][..], UserControlMessage::SetBufferLength { stream_id: 1, buffer_length: 2 })
    );
    for (tag, event) in all_events() {
        assert_eq!(event.event_type(), tag);
    }
}

#[test]
fn unknown_tags_and_short_payloads() {
    assert!(matches!(UserControlMessageReader::read(&[0, 5, 0, 0, 0, 0]), Err(Error::UnknownUserControlEvent(5))));
    assert!(matches!(UserControlMessageReader::read(&[0, 8, 0, 0, 0, 0]), Err(Error::UnknownUserControlEvent(8))));
    assert!(matches!(UserControlMessageReader::read(&[1, 0, 0, 0, 0, 0]), Err(Error::UnknownUserControlEvent(256))));
    assert!(matches!(UserControlMessageReader::read(&[0]), Err(Error::Incomplete { needed: 2 })));
    assert!(matches!(UserControlMessageReader::read(&[0, 0, 1]), Err(Error::Incomplete { needed: 4 })));
    assert!(matches!(UserControlMessageReader::read(&[0, 3, 0, 0, 0, 1, 0]), Err(Error::Incomplete { needed: 4 })));
}

#[test]
fn written_events_are_read_back() {
    for (tag, event) in all_events() {
        let mut payload = vec![0xEE];
        RTMPWriter::write_user_control_message(event, &mut payload).unwrap();
        assert_eq!(payload[0], 0xEE);
        assert_eq!(&payload[1..3], &tag.to_be_bytes());
        let (rest, back) = UserControlMessageReader::read(&payload[1..]).unwrap();
        assert_eq!(back, event);
        assert!(rest.is_empty());
    }
}

#[test]
fn ping_response_bytes() {
    let mut payload = Vec::new();
    RTMPWriter::write_user_control_message(UserControlMessage::PingResponse { timestamp: 0x01020304 }, &mut payload).unwrap();
    assert_eq!(payload, vec![0, 7, 1, 2, 3, 4]);
    let mut payload = Vec::new();
    RTMPWriter::write_user_control_message(
        UserControlMessage::SetBufferLength { stream_id: 1, buffer_length: 0x0100 },
        &mut payload,
    )
    .unwrap();
    assert_eq!(payload, vec![0, 3, 0, 0, 0, 1, 0, 0, 1, 0]);
}

#[test]
fn control_messages_read_their_fields() {
    assert_eq!(
        RTMPReader::read_window_acknowledgement_size(&[0, 0x26, 0x25, 0xA0, 9]).unwrap(),
        (&[9u8][..], WindowAcknowledgementSize { size: 2_500_000 })
    );
    assert_eq!(RTMPReader::read_acknowledgement(&[0, 0, 1, 0]).unwrap().1.sequence_number, 256);
    assert_eq!(
        RTMPReader::read_set_peer_bandwidth(&[0, 0x26, 0x25, 0xA0, 2]).unwrap(),
        (&[][..], SetPeerBandwidth { size: 2_500_000, limit_type: PeerBandwidthLimitType::Dynamic })
    );
    assert_eq!(RTMPReader::read_set_peer_bandwidth(&[0, 0, 0, 1, 0]).unwrap().1.limit_type, PeerBandwidthLimitType::Hard);
    assert_eq!(RTMPReader::read_set_peer_bandwidth(&[0, 0, 0, 1, 1]).unwrap().1.limit_type, PeerBandwidthLimitType::Soft);
    assert_eq!(RTMPReader::read_set_chunk_size(&[0, 0, 0x10, 0]).unwrap(), (&[][..], SetChunkSize { size: 4096 }));
}

#[test]
fn control_messages_refuse_bad_fields() {
    assert!(matches!(RTMPReader::read_window_acknowledgement_size(&[0, 0, 0]), Err(Error::Incomplete { needed: 4 })));
    assert!(matches!(RTMPReader::read_acknowledgement(&[]), Err(Error::Incomplete { needed: 4 })));
    assert!(matches!(RTMPReader::read_set_peer_bandwidth(&[0, 0, 0]), Err(Error::Incomplete { needed: 4 })));
    assert!(matches!(RTMPReader::read_set_peer_bandwidth(&[0, 0, 0, 1]), Err(Error::Incomplete { needed: 1 })));
    assert!(matches!(RTMPReader::read_set_peer_bandwidth(&[0, 0, 0, 1, 3]), Err(Error::InvalidLimitType(3))));
    assert!(matches!(RTMPReader::read_set_chunk_size(&[0, 0]), Err(Error::Incomplete { needed: 4 })));
    assert!(matches!(RTMPReader::read_set_chunk_size(&[0, 0, 0, 0]), Err(Error::InvalidChunkSize(0))));
    assert!(matches!(RTMPReader::read_set_chunk_size(&[0x80, 0, 0, 0]), Err(Error::InvalidChunkSize(0x8000_0000))));
    assert_eq!(RTMPReader::read_set_chunk_size(&[0x7F, 0xFF, 0xFF, 0xFF]).unwrap().1.size, 0x7FFF_FFFF);
    assert_eq!(RTMPReader::read_set_chunk_size(&[0, 0, 0, 1]).unwrap().1.size, 1);
    assert_eq!(RTMPReader::read_set_chunk_size(&[0, 1, 0, 1]).unwrap().1.size, 65537);
}

#[test]
fn limit_type_values() {
    assert_eq!(PeerBandwidthLimitType::try_from(0), Ok(PeerBandwidthLimitType::Hard));
    assert_eq!(PeerBandwidthLimitType::try_from(1), Ok(PeerBandwidthLimitType::Soft));
    assert_eq!(PeerBandwidthLimitType::try_from(2), Ok(PeerBandwidthLimitType::Dynamic));
    assert_eq!(PeerBandwidthLimitType::try_from(3), Err(()));
    assert_eq!(PeerBandwidthLimitType::Hard.to_u8(), 0);
    assert_eq!(PeerBandwidthLimitType::Soft.to_u8(), 1);
    assert_eq!(PeerBandwidthLimitType::Dynamic.to_u8(), 2);
    assert_eq!(PeerBandwidthLimitType::from_u8(255), None);
}
