use bee_protocol::errors::MessageError;
use bee_protocol::header::{Header, HEADER_SIZE};
use bee_protocol::message::{Message, Tlv};
use bee_protocol::transaction_request::TransactionRequest;

const HASH: [u8; 49] = [
    160, 3, 36, 228, 202, 18, 56, 37, 229, 28, 240, 65, 225, 238, 64, 55, 244, 83, 155, 232, 31,
    255, 208, 9, 126, 21, 82, 57, 180, 237, 182, 101, 242, 57, 202, 28, 118, 203, 67, 93, 74, 238,
    57, 39, 51, 169, 193, 124, 254,
];

#[test]
fn id() {
    assert_eq!(TransactionRequest::ID, 5);
}

#[test]
fn size_range() {
    assert_eq!(TransactionRequest::size_range().contains(&48), false);
    assert_eq!(TransactionRequest::size_range().contains(&49), true);
    assert_eq!(TransactionRequest::size_range().contains(&50), false);
}

#[test]
fn size() {
    let message = TransactionRequest::new(&HASH);

    assert_eq!(message.size(), 49);
}

fn to_from_eq(message: TransactionRequest) {
    assert_eq!(message.hash[..] == HASH[..], true);
}

#[test]
fn to_from() {
    let message_from = TransactionRequest::new(&HASH);
    let mut bytes = vec![0u8; message_from.size()];

    message_from.to_bytes(&mut bytes);
    to_from_eq(TransactionRequest::from_bytes(&bytes));
}

#[test]
fn tlv_invalid_length() {
    match Tlv::from_bytes::<TransactionRequest>(
        &Header {
            message_type: TransactionRequest::ID,
            message_length: 48,
        },
        &[0; 48],
    ) {
        Err(MessageError::InvalidPayloadLength(length)) => assert_eq!(length, 48),
        _ => unreachable!(),
    }
    match Tlv::from_bytes::<TransactionRequest>(
        &Header {
            message_type: TransactionRequest::ID,
            message_length: 50,
        },
        &[0; 50],
    ) {
        Err(MessageError::InvalidPayloadLength(length)) => assert_eq!(length, 50),
        _ => unreachable!(),
    }
}

#[test]
fn tlv() {
    let message_from = TransactionRequest::new(&HASH);
    let bytes = Tlv::into_bytes(message_from);

    to_from_eq(
        Tlv::from_bytes::<TransactionRequest>(
            &Header::from_bytes(&bytes[0..HEADER_SIZE]),
            &bytes[HEADER_SIZE..],
        )
        .unwrap(),
    );
}

#[test]
fn tlv_wrong_type() {
    match Tlv::from_bytes::<TransactionRequest>(
        &Header {
            message_type: 0x03,
            message_length: 49,
        },
        &HASH,
    ) {
        Err(MessageError::InvalidMessageType(t)) => assert_eq!(t, 0x03),
        _ => unreachable!(),
    }
}

#[test]
fn tlv_advertised_length_mismatch() {
    match Tlv::from_bytes::<TransactionRequest>(
        &Header {
            message_type: TransactionRequest::ID,
            message_length: 49,
        },
        &[0; 48],
    ) {
        Err(MessageError::InvalidPayloadLength(length)) => assert_eq!(length, 48),
        _ => unreachable!(),
    }
}

#[test]
fn transaction_request_default_is_zero() {
    let message = TransactionRequest::default();
    assert_eq!(message.hash, vec![0u8; 49]);
}
