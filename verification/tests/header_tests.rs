use bee_protocol::header::{Header, HEADER_SIZE};

fn round_trip(message_type: u8, message_length: u16) {
    let header = Header {
        message_type,
        message_length,
    };
    let mut bytes = Vec::new();
    header.write_bytes(&mut bytes);
    assert_eq!(bytes.len(), HEADER_SIZE);
    assert_eq!(Header::from_bytes(&bytes), header);
}

#[test]
fn header_round_trip_all_types() {
    // Every type identifier, over a spread of lengths including both
    // 16-bit boundaries.
    for t in 0..=255u8 {
        for length in [0u16, 1, 2, 3, 255, 256, 4095, 32768, 65534, 65535] {
            round_trip(t, length);
        }
    }
}

#[test]
fn header_exact_bytes() {
    let header = Header {
        message_type: 0x03,
        message_length: 0x1234,
    };
    let mut bytes = Vec::new();
    header.write_bytes(&mut bytes);
    assert_eq!(bytes, vec![0x03, 0x12, 0x34]);
}

#[test]
fn header_decode_is_big_endian() {
    let header = Header::from_bytes(&[0x05, 0x01, 0x00]);
    assert_eq!(header.message_type, 0x05);
    assert_eq!(header.message_length, 256);
}
