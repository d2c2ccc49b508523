use bee_protocol::errors::ProtocolMessageError;
use bee_protocol::handshake::Handshake;

#[test]
fn handshake_id_test() {
    assert_eq!(Handshake::id(), 0x01);
}

#[test]
fn handshake_size_range_test() {
    assert_eq!(Handshake::size_range().contains(&60), false);
    assert_eq!(Handshake::size_range().contains(&61), true);
    assert_eq!(Handshake::size_range().contains(&62), true);

    assert_eq!(Handshake::size_range().contains(&91), true);
    assert_eq!(Handshake::size_range().contains(&92), true);
    assert_eq!(Handshake::size_range().contains(&93), false);
}

#[test]
fn handshake_from_bytes_invalid_length_test() {
    match Handshake::from_bytes(&[0; 60]) {
        Err(ProtocolMessageError::InvalidMessageLength(length)) => assert_eq!(length, 60),
        _ => unreachable!(),
    }
    match Handshake::from_bytes(&[0; 93]) {
        Err(ProtocolMessageError::InvalidMessageLength(length)) => assert_eq!(length, 93),
        _ => unreachable!(),
    }
}

#[test]
fn handshake_new_into_from_test() {
    let port = 0xcd98;
    let timestamp = 0xb2a1d7546a470ed8;
    let coordinator = [
        160, 3, 36, 228, 202, 18, 56, 37, 229, 28, 240, 65, 225, 238, 64, 55, 244, 83, 155, 232,
        31, 255, 208, 9, 126, 21, 82, 57, 180, 237, 182, 101, 242, 57, 202, 28, 118, 203, 67, 93,
        74, 238, 57, 39, 51, 169, 193, 124, 254,
    ];
    let minimum_weight_magnitude = 0x6e;
    let supported_messages = [
        0, 1, 2, 3, 4, 5, 6, 7, 8, 9, 0, 0, 0, 0, 0, 0, 0, 0, 0, 0, 0, 0, 0, 0, 0, 0, 0, 0, 0, 0,
        0, 0,
    ];
    let message_from = Handshake::new(
        port,
        timestamp,
        &coordinator,
        minimum_weight_magnitude,
        &supported_messages,
    );
    let message_to = Handshake::from_bytes(&message_from.into_bytes()).unwrap();

    assert_eq!(message_to.port(), port);
    assert_eq!(message_to.timestamp(), timestamp);
    assert_eq!(message_to.coordinator()[..] == coordinator[..], true);
    assert_eq!(message_to.minimum_weight_magnitude(), minimum_weight_magnitude);
    assert_eq!(message_to.supported_messages()[..] == supported_messages[..], true);
}

#[test]
fn handshake_size_boundary_accept_test() {
    let message = Handshake::from_bytes(&[0; 61]).unwrap();
    assert_eq!(message.port(), 0);
    assert_eq!(message.supported_messages().len(), 32);

    let message = Handshake::from_bytes(&[0; 92]).unwrap();
    assert_eq!(message.coordinator().len(), 49);
}

#[test]
fn handshake_decode_pads_version_mask_test() {
    let mut bytes = vec![0u8; 63];
    bytes[60] = 0xaa;
    bytes[61] = 0xbb;
    bytes[62] = 0xcc;
    let message = Handshake::from_bytes(&bytes).unwrap();
    let mut expected = vec![0u8; 32];
    expected[0] = 0xaa;
    expected[1] = 0xbb;
    expected[2] = 0xcc;
    assert_eq!(message.supported_messages()[..] == expected[..], true);
}

#[test]
fn handshake_from_full_bytes_wrong_type_test() {
    let header = bee_protocol::header::Header {
        message_type: 0x04,
        message_length: 61,
    };
    match Handshake::from_full_bytes(&header, &[0; 61]) {
        Err(ProtocolMessageError::InvalidMessageType(t)) => assert_eq!(t, 0x04),
        _ => unreachable!(),
    }
}
