use bee_protocol::errors::ProtocolMessageError;
use bee_protocol::transaction_broadcast::TransactionBroadcast;

#[test]
fn transaction_broadcast_id_test() {
    assert_eq!(TransactionBroadcast::id(), 0x04);
}

#[test]
fn transaction_broadcast_size_range_test() {
    assert_eq!(TransactionBroadcast::size_range().contains(&291), false);
    assert_eq!(TransactionBroadcast::size_range().contains(&292), true);
    assert_eq!(TransactionBroadcast::size_range().contains(&293), true);

    assert_eq!(TransactionBroadcast::size_range().contains(&1603), true);
    assert_eq!(TransactionBroadcast::size_range().contains(&1604), true);
    assert_eq!(TransactionBroadcast::size_range().contains(&1605), false);
}

#[test]
fn transaction_broadcast_from_bytes_invalid_length_test() {
    match TransactionBroadcast::from_bytes(&[0; 291]) {
        Err(ProtocolMessageError::InvalidMessageLength(length)) => assert_eq!(length, 291),
        _ => unreachable!(),
    }
    match TransactionBroadcast::from_bytes(&[0; 1605]) {
        Err(ProtocolMessageError::InvalidMessageLength(length)) => assert_eq!(length, 1605),
        _ => unreachable!(),
    }
}

#[test]
fn transaction_broadcast_new_into_from_test() {
    let transaction: Vec<u8> = (500..1000).map(|i| i as u8).collect();
    let message_from = TransactionBroadcast::new(&transaction);
    let message_to = TransactionBroadcast::from_bytes(&message_from.into_bytes()).unwrap();

    assert_eq!(message_to.transaction(), &transaction);
}

#[test]
fn transaction_broadcast_boundary_accept_test() {
    let message = TransactionBroadcast::from_bytes(&[7; 292]).unwrap();
    assert_eq!(message.transaction().len(), 292);

    let message = TransactionBroadcast::from_bytes(&[7; 1604]).unwrap();
    assert_eq!(message.transaction().len(), 1604);
}
