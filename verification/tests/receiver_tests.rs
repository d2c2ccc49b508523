use bee_protocol::header::Header;
use bee_protocol::receiver::{
    AwaitingConnectionContext, AwaitingHandshakeContext, AwaitingMessageContext, MessageOutcome,
    ReceiverWorker, ReceiverWorkerEvent, ReceiverWorkerMessageState, ReceiverWorkerState,
};

fn worker() -> ReceiverWorker {
    ReceiverWorker::new(1337, &[7u8; 49], 14, &[2u8; 32])
}

fn frame(message_type: u8, payload: &[u8]) -> Vec<u8> {
    let mut v = vec![
        message_type,
        (payload.len() >> 8) as u8,
        payload.len() as u8,
    ];
    v.extend_from_slice(payload);
    v
}

/// A comparable fingerprint of an outcome: a tag and the decoded content.
fn outcome_sig(o: &MessageOutcome) -> (u8, Vec<u8>) {
    match o {
        MessageOutcome::UnexpectedHandshake => (1, Vec::new()),
        MessageOutcome::UnsupportedLegacyGossip => (2, Vec::new()),
        MessageOutcome::ForwardMilestoneRequest(m) => (3, m.index.to_be_bytes().to_vec()),
        MessageOutcome::ForwardTransactionBroadcast(m) => (4, m.transaction().clone()),
        MessageOutcome::ForwardTransactionRequest(m) => (5, m.hash.clone()),
        MessageOutcome::HeartbeatReceived(m) => {
            let mut v = m.solid_milestone_index.to_be_bytes().to_vec();
            v.extend_from_slice(&m.snapshot_milestone_index.to_be_bytes());
            (6, v)
        }
        MessageOutcome::DecodeFailure(t) => (7, vec![*t]),
        MessageOutcome::UnknownMessageType(t) => (8, vec![*t]),
    }
}

/// Feeds the chunks to a fresh message-phase session and returns the
/// fingerprints of every dispatched outcome plus the leftover buffer size.
fn feed_chunks(chunks: Vec<Vec<u8>>) -> (Vec<(u8, Vec<u8>)>, usize) {
    let w = worker();
    let mut context = AwaitingMessageContext {
        state: ReceiverWorkerMessageState::Header,
        buffer: Vec::new(),
    };
    let mut sigs = Vec::new();
    for chunk in chunks {
        let (state, outcomes) = w.message_handler(context, ReceiverWorkerEvent::Message(chunk));
        for o in &outcomes {
            sigs.push(outcome_sig(o));
        }
        context = match state {
            ReceiverWorkerState::AwaitingMessage(c) => c,
            _ => unreachable!(),
        };
    }
    (sigs, context.buffer.len())
}

fn sample_stream() -> Vec<u8> {
    let mut stream = Vec::new();
    stream.extend_from_slice(&frame(0x03, &[0, 0, 0, 42]));
    stream.extend_from_slice(&frame(0x06, &[0, 0, 0, 9, 0, 0, 0, 4]));
    stream.extend_from_slice(&frame(0x05, &[0xab; 49]));
    stream.extend_from_slice(&frame(0x2f, &[1, 2, 3]));
    stream.extend_from_slice(&frame(0x03, &[0, 0, 1, 0]));
    stream
}

#[test]
fn reassembly_chunking_independence() {
    let stream = sample_stream();

    let whole = feed_chunks(vec![stream.clone()]);

    let one_by_one = feed_chunks(stream.iter().map(|b| vec![*b]).collect());

    let mut odd = Vec::new();
    let mut i: usize = 0;
    let mut n: usize = 1;
    while i < stream.len() {
        let end = (i + n).min(stream.len());
        odd.push(stream[i..end].to_vec());
        i = end;
        n = n % 7 + 1;
    }
    let odd = feed_chunks(odd);

    assert_eq!(whole.0.len(), 5);
    assert_eq!(whole, one_by_one);
    assert_eq!(whole, odd);
    assert_eq!(whole.1, 0);
}

#[test]
fn reassembly_keeps_partial_tail() {
    // A complete milestone request plus half a header: one message out, the
    // two unconsumed bytes kept for the next read.
    let mut stream = frame(0x03, &[0, 0, 0, 7]);
    stream.extend_from_slice(&[0x06, 0x00]);
    let (sigs, leftover) = feed_chunks(vec![stream]);
    assert_eq!(sigs, vec![(3, vec![0, 0, 0, 7])]);
    assert_eq!(leftover, 2);
}

#[test]
fn reassembly_payload_spanning_reads() {
    // A transaction broadcast payload split across three reads.
    let payload = vec![0x5a; 300];
    let full = frame(0x04, &payload);
    let chunks = vec![
        full[0..10].to_vec(),
        full[10..200].to_vec(),
        full[200..].to_vec(),
    ];
    let (sigs, leftover) = feed_chunks(chunks);
    assert_eq!(sigs, vec![(4, payload)]);
    assert_eq!(leftover, 0);
}

#[test]
fn process_message_dispatch() {
    let w = worker();

    let handshake = Header {
        message_type: 0x01,
        message_length: 0,
    };
    assert!(matches!(
        w.process_message(&handshake, &[]),
        MessageOutcome::UnexpectedHandshake
    ));

    let legacy = Header {
        message_type: 0x02,
        message_length: 0,
    };
    assert!(matches!(
        w.process_message(&legacy, &[]),
        MessageOutcome::UnsupportedLegacyGossip
    ));

    let unknown = Header {
        message_type: 0x7f,
        message_length: 0,
    };
    assert!(matches!(
        w.process_message(&unknown, &[]),
        MessageOutcome::UnknownMessageType(0x7f)
    ));

    let bad_milestone = Header {
        message_type: 0x03,
        message_length: 5,
    };
    assert!(matches!(
        w.process_message(&bad_milestone, &[0; 5]),
        MessageOutcome::DecodeFailure(0x03)
    ));

    let heartbeat = Header {
        message_type: 0x06,
        message_length: 8,
    };
    match w.process_message(&heartbeat, &[0, 0, 0, 3, 0, 0, 0, 1]) {
        MessageOutcome::HeartbeatReceived(h) => {
            assert_eq!(h.solid_milestone_index, 3);
            assert_eq!(h.snapshot_milestone_index, 1);
        }
        _ => unreachable!(),
    }

    let request = Header {
        message_type: 0x05,
        message_length: 49,
    };
    match w.process_message(&request, &[0xcd; 49]) {
        MessageOutcome::ForwardTransactionRequest(m) => assert_eq!(m.hash, vec![0xcd; 49]),
        _ => unreachable!(),
    }
}

#[test]
fn handshake_short_read_is_dropped() {
    let w = worker();
    let context = AwaitingHandshakeContext {
        state: ReceiverWorkerMessageState::Header,
    };
    let state = w.handshake_handler(context, ReceiverWorkerEvent::Message(vec![1, 2]));
    match state {
        ReceiverWorkerState::AwaitingHandshake(c) => {
            assert!(matches!(c.state, ReceiverWorkerMessageState::Header))
        }
        _ => unreachable!(),
    }
}

#[test]
fn handshake_split_header_then_payload() {
    let w = worker();
    let context = AwaitingHandshakeContext {
        state: ReceiverWorkerMessageState::Header,
    };
    // Exactly the header: the payload is awaited.
    let state = w.handshake_handler(context, ReceiverWorkerEvent::Message(vec![0x01, 0x00, 90]));
    let context = match state {
        ReceiverWorkerState::AwaitingHandshake(c) => {
            assert!(matches!(c.state, ReceiverWorkerMessageState::Payload(_)));
            c
        }
        _ => unreachable!(),
    };
    // The payload alone completes the handshake.
    let state = w.handshake_handler(context, ReceiverWorkerEvent::Message(vec![0u8; 90]));
    assert!(matches!(state, ReceiverWorkerState::AwaitingMessage(_)));
}

#[test]
fn handshake_malformed_is_discarded() {
    let w = worker();
    let context = AwaitingHandshakeContext {
        state: ReceiverWorkerMessageState::Header,
    };
    // A non-handshake type in the header: back to awaiting a fresh header.
    let mut blob = vec![0x04, 0x00, 90];
    blob.extend_from_slice(&[0u8; 90]);
    let state = w.handshake_handler(context, ReceiverWorkerEvent::Message(blob));
    match state {
        ReceiverWorkerState::AwaitingHandshake(c) => {
            assert!(matches!(c.state, ReceiverWorkerMessageState::Header))
        }
        _ => unreachable!(),
    }
}

#[test]
fn end_to_end_scenario() {
    let w = worker();
    let state = ReceiverWorkerState::AwaitingConnection(AwaitingConnectionContext {});

    // Connection established: the local handshake goes out.
    let (state, send, outcomes) = w.step(state, ReceiverWorkerEvent::Connected, 0x1122);
    let sent = send.unwrap();
    assert_eq!(sent.len(), 95);
    assert_eq!(&sent[0..3], &[0x01, 0x00, 92]);
    assert_eq!(outcomes.len(), 0);
    let state = state.unwrap();
    assert!(matches!(state, ReceiverWorkerState::AwaitingHandshake(_)));

    // A 93-byte blob: header plus 90-byte handshake payload in one event.
    let mut blob = vec![0x01, 0x00, 90];
    blob.extend_from_slice(&[0u8; 90]);
    let (state, send, outcomes) = w.step(state, ReceiverWorkerEvent::Message(blob), 0);
    assert!(send.is_none());
    assert_eq!(outcomes.len(), 0);
    let state = state.unwrap();
    assert!(matches!(state, ReceiverWorkerState::AwaitingMessage(_)));

    // A milestone-request header, alone.
    let (state, _, outcomes) =
        w.step(state, ReceiverWorkerEvent::Message(vec![0x03, 0x00, 0x04]), 0);
    assert_eq!(outcomes.len(), 0);
    let state = state.unwrap();

    // Its payload in a separate event: exactly one forwarded request.
    let (state, _, outcomes) = w.step(
        state,
        ReceiverWorkerEvent::Message(vec![0x00, 0x00, 0x30, 0x39]),
        0,
    );
    assert_eq!(outcomes.len(), 1);
    match &outcomes[0] {
        MessageOutcome::ForwardMilestoneRequest(m) => assert_eq!(m.index, 12345),
        _ => unreachable!(),
    }
    let state = state.unwrap();

    // Removal ends the session for good.
    let (state, send, outcomes) = w.step(state, ReceiverWorkerEvent::Removed, 0);
    assert!(state.is_none());
    assert!(send.is_none());
    assert_eq!(outcomes.len(), 0);
}

#[test]
fn disconnect_resets_to_awaiting_connection() {
    let w = worker();
    let state = w.handshake_handler(
        AwaitingHandshakeContext {
            state: ReceiverWorkerMessageState::Header,
        },
        ReceiverWorkerEvent::Disconnected,
    );
    assert!(matches!(state, ReceiverWorkerState::AwaitingConnection(_)));

    let (state, outcomes) = w.message_handler(
        AwaitingMessageContext {
            state: ReceiverWorkerMessageState::Header,
            buffer: vec![1, 2],
        },
        ReceiverWorkerEvent::Disconnected,
    );
    assert!(matches!(state, ReceiverWorkerState::AwaitingConnection(_)));
    assert_eq!(outcomes.len(), 0);
}
