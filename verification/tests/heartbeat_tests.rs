use bee_protocol::errors::MessageError;
use bee_protocol::header::{Header, HEADER_SIZE};
use bee_protocol::heartbeat::Heartbeat;
use bee_protocol::message::Message;

#[test]
fn heartbeat_id() {
    assert_eq!(Heartbeat::ID, 6);
}

#[test]
fn heartbeat_size_range() {
    assert_eq!(Heartbeat::size_range().contains(&7), false);
    assert_eq!(Heartbeat::size_range().contains(&8), true);
    assert_eq!(Heartbeat::size_range().contains(&9), false);
}

#[test]
fn heartbeat_full_round_trip() {
    let message_from = Heartbeat::new(0x0102_0304, 0x0a0b_0c0d);
    let bytes = message_from.into_full_bytes();
    assert_eq!(
        bytes,
        vec![0x06, 0x00, 0x08, 0x01, 0x02, 0x03, 0x04, 0x0a, 0x0b, 0x0c, 0x0d]
    );

    let message_to = Heartbeat::from_full_bytes(
        &Header::from_bytes(&bytes[0..HEADER_SIZE]),
        &bytes[HEADER_SIZE..],
    )
    .unwrap();
    assert_eq!(message_to, message_from);
}

#[test]
fn heartbeat_invalid_length() {
    let header = Header {
        message_type: Heartbeat::ID,
        message_length: 7,
    };
    match Heartbeat::from_full_bytes(&header, &[0; 7]) {
        Err(MessageError::InvalidPayloadLength(length)) => assert_eq!(length, 7),
        _ => unreachable!(),
    }
}
