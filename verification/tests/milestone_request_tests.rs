use bee_protocol::errors::MessageError;
use bee_protocol::header::{Header, HEADER_SIZE};
use bee_protocol::message::Message;
use bee_protocol::milestone_request::MilestoneRequest;

const INDEX: u32 = 0x81f7df7c;

#[test]
fn milestone_request_id_test() {
    assert_eq!(MilestoneRequest::ID, 3);
}

#[test]
fn milestone_request_size_range_test() {
    assert_eq!(MilestoneRequest::size_range().contains(&3), false);
    assert_eq!(MilestoneRequest::size_range().contains(&4), true);
    assert_eq!(MilestoneRequest::size_range().contains(&5), false);
}

#[test]
fn milestone_request_from_bytes_invalid_length_test() {
    match MilestoneRequest::from_bytes(&[0; 3]) {
        Err(MessageError::InvalidPayloadLength(length)) => assert_eq!(length, 3),
        _ => unreachable!(),
    }
    match MilestoneRequest::from_bytes(&[0; 5]) {
        Err(MessageError::InvalidPayloadLength(length)) => assert_eq!(length, 5),
        _ => unreachable!(),
    }
}

#[test]
fn size_test() {
    let message = MilestoneRequest::new(INDEX);

    assert_eq!(message.size(), 4);
}

fn to_from_eq(message: MilestoneRequest) {
    assert_eq!(message.index, INDEX);
}

#[test]
fn to_from_test() {
    let message_from = MilestoneRequest::new(INDEX);
    let mut bytes = vec![0u8; message_from.size()];

    message_from.to_bytes(&mut bytes);
    to_from_eq(MilestoneRequest::from_bytes(&bytes).unwrap());
}

#[test]
fn full_to_from_test() {
    let message_from = MilestoneRequest::new(INDEX);
    let bytes = message_from.into_full_bytes();

    to_from_eq(
        MilestoneRequest::from_full_bytes(
            &Header::from_bytes(&bytes[0..HEADER_SIZE]),
            &bytes[HEADER_SIZE..],
        )
        .unwrap(),
    );
}

#[test]
fn milestone_request_exact_encoding_test() {
    let bytes = MilestoneRequest::new(INDEX).into_full_bytes();
    assert_eq!(bytes, vec![0x03, 0x00, 0x04, 0x81, 0xf7, 0xdf, 0x7c]);
}
