//! The per-connection receiver: a state machine that negotiates the
//! handshake, reassembles header-framed messages out of arbitrarily chunked
//! reads, and decides where each decoded message goes. The transitions here
//! are pure functions from state and event to state and outputs; performing
//! the outputs - writing the handshake to the peer, forwarding a message to a
//! worker channel - is the caller's part.

use vstd::prelude::*;
use crate::bytes::slice_to_vec;
use crate::handshake::{Handshake, HandshakeView};
use crate::header::{lemma_header_bytes_round_trip, lemma_header_round_trip, Header};
use crate::heartbeat::Heartbeat;
use crate::message::Message;
use crate::milestone_request::MilestoneRequest;
use crate::transaction_broadcast::TransactionBroadcast;
use crate::transaction_request::TransactionRequest;

verus! {

/// Reserved identifier of the unsupported legacy gossip kind: recognised so
/// it can be ignored, never decoded.
pub const LEGACY_GOSSIP_ID: u8 = 0x02;

/// A connection lifecycle or data event delivered to a receiver.
#[derive(Debug)]
pub enum ReceiverWorkerEvent {
    /// The session was removed for good; its processing ends.
    Removed,
    /// The connection to the peer was established.
    Connected,
    /// The connection to the peer was lost.
    Disconnected,
    /// A chunk of bytes arrived from the peer.
    Message(Vec<u8>),
}

/// What the reassembly expects next: a header, or the payload of a header
/// already parsed.
#[derive(Debug, Clone, Copy, PartialEq, Eq, Structural)]
pub enum ReceiverWorkerMessageState {
    Header,
    Payload(Header),
}

pub struct AwaitingConnectionContext {}

pub struct AwaitingHandshakeContext {
    /// What the handshake exchange expects next.
    pub state: ReceiverWorkerMessageState,
}

pub struct AwaitingMessageContext {
    /// What the reassembly expects next.
    pub state: ReceiverWorkerMessageState,
    /// Bytes received but not yet consumed into a complete header or payload.
    pub buffer: Vec<u8>,
}

/// The connection states of a receiver session.
pub enum ReceiverWorkerState {
    /// No connection yet, or the last one was lost.
    AwaitingConnection(AwaitingConnectionContext),
    /// Connected; the peer's handshake has not arrived complete.
    AwaitingHandshake(AwaitingHandshakeContext),
    /// Handshake done; reassembling framed messages.
    AwaitingMessage(AwaitingMessageContext),
}

/// Where a decoded message was sent, or why it went nowhere. The caller
/// performs the forwards; a forward onto a closed channel is the caller's
/// error and does not change the state machine.
#[derive(Debug, Clone)]
pub enum MessageOutcome {
    /// A handshake after the handshake phase: a protocol violation, dropped.
    UnexpectedHandshake,
    /// A legacy gossip message: unsupported, dropped.
    UnsupportedLegacyGossip,
    /// A milestone request to hand to the request responder.
    ForwardMilestoneRequest(MilestoneRequest),
    /// A transaction broadcast to hand to the transaction worker.
    ForwardTransactionBroadcast(TransactionBroadcast),
    /// A transaction request to hand to the request responder.
    ForwardTransactionRequest(TransactionRequest),
    /// A heartbeat: decoded for validation, not forwarded.
    HeartbeatReceived(Heartbeat),
    /// A known kind whose payload did not decode; carries the kind.
    DecodeFailure(u8),
    /// An unknown type identifier: ignored.
    UnknownMessageType(u8),
}

/// What `process_message` owes for a payload `s` framed by `h` (with `s` as
/// long as the header advertises): which outcome stands for which kind, with
/// the decoded message pinned down for each forwarded kind.
pub open spec fn spec_outcome_ok(o: MessageOutcome, h: Header, s: Seq<u8>) -> bool {
    if h.message_type == Handshake::spec_id() {
        o == MessageOutcome::UnexpectedHandshake
    } else if h.message_type == LEGACY_GOSSIP_ID {
        o == MessageOutcome::UnsupportedLegacyGossip
    } else if h.message_type == <MilestoneRequest as Message>::spec_id() {
        if s.len() == 4 {
            o == MessageOutcome::ForwardMilestoneRequest(MilestoneRequest::spec_decode(s))
        } else {
            o == MessageOutcome::DecodeFailure(h.message_type)
        }
    } else if h.message_type == TransactionBroadcast::spec_id() {
        if TransactionBroadcast::spec_min() <= s.len() <= TransactionBroadcast::spec_max() {
            o matches MessageOutcome::ForwardTransactionBroadcast(m) && m@ == s
        } else {
            o == MessageOutcome::DecodeFailure(h.message_type)
        }
    } else if h.message_type == <TransactionRequest as Message>::spec_id() {
        if s.len() == 49 {
            o matches MessageOutcome::ForwardTransactionRequest(m) && m.hash@ == s
        } else {
            o == MessageOutcome::DecodeFailure(h.message_type)
        }
    } else if h.message_type == <Heartbeat as Message>::spec_id() {
        if s.len() == 8 {
            o == MessageOutcome::HeartbeatReceived(Heartbeat::spec_decode(s))
        } else {
            o == MessageOutcome::DecodeFailure(h.message_type)
        }
    } else {
        o == MessageOutcome::UnknownMessageType(h.message_type)
    }
}

/// The bytes a reassembly context still owes the parser: the encoding of an
/// already parsed header, if any, followed by the buffered bytes.
pub open spec fn spec_pending(state: ReceiverWorkerMessageState, buffer: Seq<u8>) -> Seq<u8> {
    match state {
        ReceiverWorkerMessageState::Header => buffer,
        ReceiverWorkerMessageState::Payload(h) => h.spec_bytes() + buffer,
    }
}

/// The complete (header, payload) frames at the front of a byte stream:
/// greedily, a three-byte header and as many payload bytes as it advertises,
/// as long as both are wholly present.
pub open spec fn spec_frames(s: Seq<u8>) -> Seq<(Header, Seq<u8>)>
    decreases s.len(),
{
    if s.len() < 3 {
        Seq::empty()
    } else {
        let h = Header::spec_decode(s.subrange(0, 3));
        if s.len() >= 3 + h.message_length {
            seq![(h, s.subrange(3, 3 + h.message_length))] + spec_frames(
                s.skip(3 + h.message_length),
            )
        } else {
            Seq::empty()
        }
    }
}

/// The unconsumed tail of a byte stream after taking every complete frame
/// off its front.
pub open spec fn spec_frames_rem(s: Seq<u8>) -> Seq<u8>
    decreases s.len(),
{
    if s.len() < 3 {
        s
    } else {
        let h = Header::spec_decode(s.subrange(0, 3));
        if s.len() >= 3 + h.message_length {
            spec_frames_rem(s.skip(3 + h.message_length))
        } else {
            s
        }
    }
}

/// Chunking independence of reassembly: cutting a stream after `s` changes
/// nothing. The frames of `s + t` are the frames of `s` followed by the
/// frames of the leftover of `s` joined with `t`, and the leftovers agree.
/// With the message handler's contract this says that the dispatched
/// sequence of (header, payload) pairs does not depend on how the stream was
/// cut into read events.
pub proof fn lemma_frames_compose(s: Seq<u8>, t: Seq<u8>)
    ensures
        spec_frames(s + t) == spec_frames(s) + spec_frames(spec_frames_rem(s) + t),
        spec_frames_rem(s + t) == spec_frames_rem(spec_frames_rem(s) + t),
    decreases s.len(),
{
    if s.len() < 3 {
        assert(spec_frames_rem(s) + t =~= s + t);
        assert(spec_frames(s) + spec_frames(s + t) =~= spec_frames(s + t));
    } else {
        let h = Header::spec_decode(s.subrange(0, 3));
        let big = s + t;
        assert(big.subrange(0, 3) =~= s.subrange(0, 3));
        let len = h.message_length as int;
        if s.len() >= 3 + len {
            let s2 = s.skip(3 + len);
            assert(big.skip(3 + len) =~= s2 + t);
            assert(big.subrange(3, 3 + len) =~= s.subrange(3, 3 + len));
            lemma_frames_compose(s2, t);
            assert(spec_frames(s + t) =~= spec_frames(s) + spec_frames(spec_frames_rem(s) + t));
        } else {
            assert(spec_frames_rem(s) + t =~= s + t);
            assert(spec_frames(s) + spec_frames(s + t) =~= spec_frames(s + t));
        }
    }
}

/// A stream with no complete frame at its front loses nothing to the parser:
/// its unconsumed tail is the stream itself.
pub proof fn lemma_frames_empty_rem(s: Seq<u8>)
    requires
        spec_frames(s).len() == 0,
    ensures
        spec_frames_rem(s) == s,
{
}

/// What reassembly leaves pending is always fully reduced: no complete frame
/// remains at its front.
pub proof fn lemma_frames_rem_reduced(s: Seq<u8>)
    ensures
        spec_frames(spec_frames_rem(s)).len() == 0,
    decreases s.len(),
{
    if s.len() >= 3 {
        let h = Header::spec_decode(s.subrange(0, 3));
        if s.len() >= 3 + h.message_length {
            lemma_frames_rem_reduced(s.skip(3 + h.message_length));
        }
    }
}

/// The frames dispatched when a stream arrives cut into the given chunks,
/// starting from already-reduced pending bytes: each chunk contributes the
/// frames it completes.
pub open spec fn spec_fed_frames(p: Seq<u8>, chunks: Seq<Seq<u8>>) -> Seq<(Header, Seq<u8>)>
    decreases chunks.len(),
{
    if chunks.len() == 0 {
        Seq::empty()
    } else {
        spec_frames(p + chunks[0]) + spec_fed_frames(
            spec_frames_rem(p + chunks[0]),
            chunks.skip(1),
        )
    }
}

/// What stays pending after a stream arrives cut into the given chunks.
pub open spec fn spec_fed_rem(p: Seq<u8>, chunks: Seq<Seq<u8>>) -> Seq<u8>
    decreases chunks.len(),
{
    if chunks.len() == 0 {
        p
    } else {
        spec_fed_rem(spec_frames_rem(p + chunks[0]), chunks.skip(1))
    }
}

/// Reassembly is independent of chunking: a stream fed chunk by chunk - in
/// however many pieces, of whatever sizes - dispatches exactly the frames of
/// the whole stream fed at once, in the same order, and leaves the same
/// bytes pending.
pub proof fn lemma_reassembly_chunking(p: Seq<u8>, chunks: Seq<Seq<u8>>)
    requires
        spec_frames(p).len() == 0,
    ensures
        spec_fed_frames(p, chunks) == spec_frames(p + chunks.flatten()),
        spec_fed_rem(p, chunks) == spec_frames_rem(p + chunks.flatten()),
    decreases chunks.len(),
{
    if chunks.len() == 0 {
        assert(chunks.flatten() =~= Seq::<u8>::empty());
        assert(p + chunks.flatten() =~= p);
        lemma_frames_empty_rem(p);
        assert(spec_fed_frames(p, chunks) =~= spec_frames(p));
    } else {
        let first = chunks[0];
        let rest = chunks.skip(1);
        let p2 = spec_frames_rem(p + first);
        lemma_frames_rem_reduced(p + first);
        lemma_reassembly_chunking(p2, rest);
        lemma_frames_compose(p + first, rest.flatten());
        assert(chunks.drop_first() =~= rest);
        assert((p + first) + rest.flatten() =~= p + chunks.flatten());
        assert(spec_fed_frames(p, chunks) =~= spec_frames(p + chunks.flatten()));
    }
}

/// The decision core of one peer connection: the local node's handshake
/// configuration, injected at construction, and the pure state transitions.
pub struct ReceiverWorker {
    /// The local port advertised in the handshake.
    pub port: u16,
    /// The local coordinator identity, 49 bytes.
    pub coordinator: Vec<u8>,
    /// The local minimum weight magnitude.
    pub minimum_weight_magnitude: u8,
    /// The local supported-version bitmask, 32 bytes.
    pub supported_versions: Vec<u8>,
}

impl ReceiverWorker {
    /// Well-formed workers carry a full-width coordinator identity and
    /// version bitmask.
    pub open spec fn wf(self) -> bool {
        self.coordinator@.len() == 49 && self.supported_versions@.len() == 32
    }

    /// The local handshake announced to the peer, at a given clock reading.
    pub open spec fn spec_local_handshake(self, timestamp: u64) -> HandshakeView {
        HandshakeView {
            port: self.port,
            timestamp,
            coordinator: self.coordinator@,
            minimum_weight_magnitude: self.minimum_weight_magnitude,
            supported_messages: self.supported_versions@,
        }
    }

    pub fn new(
        port: u16,
        coordinator: &[u8],
        minimum_weight_magnitude: u8,
        supported_versions: &[u8],
    ) -> (r: Self)
        requires
            coordinator@.len() == 49,
            supported_versions@.len() == 32,
        ensures
            r.port == port,
            r.coordinator@ == coordinator@,
            r.minimum_weight_magnitude == minimum_weight_magnitude,
            r.supported_versions@ == supported_versions@,
            r.wf(),
    {
        let r = Self {
            port,
            coordinator: slice_to_vec(coordinator, 0, coordinator.len()),
            minimum_weight_magnitude,
            supported_versions: slice_to_vec(supported_versions, 0, supported_versions.len()),
        };
        proof {
            assert(coordinator@.subrange(0, coordinator@.len() as int) =~= coordinator@);
            assert(supported_versions@.subrange(0, supported_versions@.len() as int)
                =~= supported_versions@);
        }
        r
    }

    /// The framed local handshake to write to the peer on connection. The
    /// caller supplies the clock reading that becomes the timestamp field.
    pub fn send_handshake(&self, timestamp: u64) -> (r: Vec<u8>)
        requires
            self.wf(),
        ensures
            r@ == (Header {
                message_type: Handshake::spec_id(),
                message_length: 92,
            }).spec_bytes() + self.spec_local_handshake(timestamp).spec_bytes(),
    {
        let handshake = Handshake::new(
            self.port,
            timestamp,
            self.coordinator.as_slice(),
            self.minimum_weight_magnitude,
            self.supported_versions.as_slice(),
        );
        proof {
            crate::bytes::lemma_be_bytes_len(self.port as int, 2);
            crate::bytes::lemma_be_bytes_len(timestamp as int, 8);
        }
        handshake.into_full_bytes()
    }

    /// Routes one framed message: forwards requests and broadcasts, keeps
    /// heartbeats for validation, drops the rest. Never fails; a payload
    /// that does not decode is reported as an outcome and dropped.
    pub fn process_message(&self, header: &Header, bytes: &[u8]) -> (r: MessageOutcome)
        requires
            bytes@.len() == header.message_length,
        ensures
            spec_outcome_ok(r, *header, bytes@),
    {
        if header.message_type == Handshake::id() {
            MessageOutcome::UnexpectedHandshake
        } else if header.message_type == LEGACY_GOSSIP_ID {
            MessageOutcome::UnsupportedLegacyGossip
        } else if header.message_type == <MilestoneRequest as Message>::id() {
            match MilestoneRequest::from_full_bytes(header, bytes) {
                Ok(message) => MessageOutcome::ForwardMilestoneRequest(message),
                Err(_) => MessageOutcome::DecodeFailure(header.message_type),
            }
        } else if header.message_type == TransactionBroadcast::id() {
            match TransactionBroadcast::from_full_bytes(header, bytes) {
                Ok(message) => MessageOutcome::ForwardTransactionBroadcast(message),
                Err(_) => MessageOutcome::DecodeFailure(header.message_type),
            }
        } else if header.message_type == <TransactionRequest as Message>::id() {
            match TransactionRequest::from_full_bytes(header, bytes) {
                Ok(message) => MessageOutcome::ForwardTransactionRequest(message),
                Err(_) => MessageOutcome::DecodeFailure(header.message_type),
            }
        } else if header.message_type == <Heartbeat as Message>::id() {
            match Heartbeat::from_full_bytes(header, bytes) {
                Ok(message) => MessageOutcome::HeartbeatReceived(message),
                Err(_) => MessageOutcome::DecodeFailure(header.message_type),
            }
        } else {
            MessageOutcome::UnknownMessageType(header.message_type)
        }
    }

    /// In the initial state, a connection coming up sends the local
    /// handshake and starts awaiting the peer's; every other event changes
    /// nothing.
    pub fn connection_handler(
        &self,
        context: AwaitingConnectionContext,
        event: ReceiverWorkerEvent,
        timestamp: u64,
    ) -> (r: (ReceiverWorkerState, Option<Vec<u8>>))
        requires
            self.wf(),
        ensures
            event is Connected ==> (r.0 matches ReceiverWorkerState::AwaitingHandshake(c)
                && c.state is Header) && (r.1 matches Some(b) && b@ == (Header {
                message_type: Handshake::spec_id(),
                message_length: 92,
            }).spec_bytes() + self.spec_local_handshake(timestamp).spec_bytes()),
            !(event is Connected) ==> r.0 is AwaitingConnection && r.1 is None,
    {
        match event {
            ReceiverWorkerEvent::Connected => {
                let bytes = self.send_handshake(timestamp);
                (
                    ReceiverWorkerState::AwaitingHandshake(
                        AwaitingHandshakeContext { state: ReceiverWorkerMessageState::Header },
                    ),
                    Some(bytes),
                )
            },
            _ => (ReceiverWorkerState::AwaitingConnection(context), None),
        }
    }

    /// Tries the peer's handshake: a payload that decodes as a handshake
    /// opens the message phase with an empty reassembly buffer; one that does
    /// not is discarded and a fresh header is awaited. Field-by-field
    /// validation of the decoded handshake is bypassed: decoding alone gates
    /// the transition.
    pub fn check_handshake(&self, header: Header, bytes: &[u8]) -> (r: ReceiverWorkerState)
        ensures
            header.message_type == Handshake::spec_id() && Handshake::spec_min() <= bytes@.len()
                <= Handshake::spec_max() ==> (r matches ReceiverWorkerState::AwaitingMessage(c)
                && c.state is Header && c.buffer@.len() == 0),
            !(header.message_type == Handshake::spec_id() && Handshake::spec_min() <= bytes@.len()
                <= Handshake::spec_max()) ==> (r matches ReceiverWorkerState::AwaitingHandshake(c)
                && c.state is Header),
    {
        match Handshake::from_full_bytes(&header, bytes) {
            Ok(_) => ReceiverWorkerState::AwaitingMessage(
                AwaitingMessageContext {
                    state: ReceiverWorkerMessageState::Header,
                    buffer: Vec::new(),
                },
            ),
            Err(_) => ReceiverWorkerState::AwaitingHandshake(
                AwaitingHandshakeContext { state: ReceiverWorkerMessageState::Header },
            ),
        }
    }

    /// Awaiting the peer's handshake: a disconnect starts over; a read below
    /// header size is dropped and a fresh header awaited; a header-sized read
    /// parses the header and awaits its payload; anything longer is tried as
    /// header plus handshake at once, or, with a header already parsed, as
    /// the pending handshake payload.
    pub fn handshake_handler(
        &self,
        context: AwaitingHandshakeContext,
        event: ReceiverWorkerEvent,
    ) -> (r: ReceiverWorkerState)
        ensures
            event is Disconnected ==> r is AwaitingConnection,
            event matches ReceiverWorkerEvent::Message(bytes) ==> {
                &&& bytes@.len() < 3 ==> (r matches ReceiverWorkerState::AwaitingHandshake(c)
                    && c.state is Header)
                &&& bytes@.len() == 3 && context.state is Header ==> (
                r matches ReceiverWorkerState::AwaitingHandshake(c) && c.state
                    == ReceiverWorkerMessageState::Payload(
                    Header::spec_decode(bytes@.subrange(0, 3)),
                ))
                &&& bytes@.len() > 3 && context.state is Header ==> spec_handshake_outcome(
                    r,
                    Header::spec_decode(bytes@.subrange(0, 3)),
                    bytes@.skip(3),
                )
                &&& context.state matches ReceiverWorkerMessageState::Payload(h) ==> (bytes@.len()
                    >= 3 ==> spec_handshake_outcome(r, h, bytes@))
            },
            event is Removed || event is Connected ==> (
            r matches ReceiverWorkerState::AwaitingHandshake(c) && c.state == context.state),
    {
        match event {
            ReceiverWorkerEvent::Disconnected => ReceiverWorkerState::AwaitingConnection(
                AwaitingConnectionContext {},
            ),
            ReceiverWorkerEvent::Message(bytes) => {
                if bytes.len() < 3 {
                    ReceiverWorkerState::AwaitingHandshake(
                        AwaitingHandshakeContext { state: ReceiverWorkerMessageState::Header },
                    )
                } else {
                    match context.state {
                        ReceiverWorkerMessageState::Header => {
                            let header_bytes = slice_to_vec(bytes.as_slice(), 0, 3);
                            let header = Header::from_bytes(header_bytes.as_slice());
                            if bytes.len() > 3 {
                                let payload = slice_to_vec(bytes.as_slice(), 3, bytes.len());
                                self.check_handshake(header, payload.as_slice())
                            } else {
                                ReceiverWorkerState::AwaitingHandshake(
                                    AwaitingHandshakeContext {
                                        state: ReceiverWorkerMessageState::Payload(header),
                                    },
                                )
                            }
                        },
                        ReceiverWorkerMessageState::Payload(header) => {
                            self.check_handshake(header, bytes.as_slice())
                        },
                    }
                }
            },
            _ => ReceiverWorkerState::AwaitingHandshake(context),
        }
    }
    /// In the message phase: a disconnect starts over; a chunk of bytes is
    /// appended to the reassembly buffer, every frame completed by it is
    /// decoded and routed in order, and the unconsumed tail is kept for the
    /// next read. The contract says exactly that: the outcomes are those of
    /// the complete frames at the front of the pending stream plus the
    /// chunk, and what stays pending is that stream's unconsumed tail.
    pub fn message_handler(
        &self,
        context: AwaitingMessageContext,
        event: ReceiverWorkerEvent,
    ) -> (r: (ReceiverWorkerState, Vec<MessageOutcome>))
        ensures
            event is Disconnected ==> r.0 is AwaitingConnection && r.1@.len() == 0,
            event matches ReceiverWorkerEvent::Message(bytes) ==> {
                let s = spec_pending(context.state, context.buffer@) + bytes@;
                &&& (r.0 matches ReceiverWorkerState::AwaitingMessage(c) && spec_pending(
                    c.state,
                    c.buffer@,
                ) == spec_frames_rem(s))
                &&& r.1@.len() == spec_frames(s).len()
                &&& forall|i: int|
                    0 <= i < r.1@.len() ==> spec_outcome_ok(
                        #[trigger] r.1@[i],
                        spec_frames(s)[i].0,
                        spec_frames(s)[i].1,
                    )
            },
            event is Removed || event is Connected ==> (
            r.0 matches ReceiverWorkerState::AwaitingMessage(c) && c.state == context.state
                && c.buffer@ == context.buffer@ && r.1@.len() == 0),
    {
        match event {
            ReceiverWorkerEvent::Disconnected => (
                ReceiverWorkerState::AwaitingConnection(AwaitingConnectionContext {}),
                Vec::new(),
            ),
            ReceiverWorkerEvent::Message(bytes) => {
                let ghost s = spec_pending(context.state, context.buffer@) + bytes@;
                let mut context = context;
                let mut bytes = bytes;
                if context.buffer.is_empty() {
                    context.buffer = bytes;
                } else {
                    context.buffer.append(&mut bytes);
                }
                let ghost total = context.buffer@;
                let mut outcomes: Vec<MessageOutcome> = Vec::new();
                let mut offset: usize = 0;
                let mut remaining = true;
                let ghost mut emitted: Seq<(Header, Seq<u8>)> = Seq::empty();
                proof {
                    assert(spec_pending(context.state, total) =~= s);
                    assert(total.skip(0) =~= total);
                }
                while remaining
                    invariant
                        total == context.buffer@,
                        offset <= total.len(),
                        spec_frames(s) == emitted + spec_frames(
                            spec_pending(context.state, total.skip(offset as int)),
                        ),
                        spec_frames_rem(s) == spec_frames_rem(
                            spec_pending(context.state, total.skip(offset as int)),
                        ),
                        outcomes@.len() == emitted.len(),
                        forall|i: int|
                            0 <= i < emitted.len() ==> spec_outcome_ok(
                                #[trigger] outcomes@[i],
                                emitted[i].0,
                                emitted[i].1,
                            ),
                        !remaining ==> spec_frames(
                            spec_pending(context.state, total.skip(offset as int)),
                        ).len() == 0 && spec_frames_rem(
                            spec_pending(context.state, total.skip(offset as int)),
                        ) == spec_pending(context.state, total.skip(offset as int)),
                    decreases
                            (if remaining {
                                1int
                            } else {
                                0int
                            }),
                            total.len() - offset,
                            (match context.state {
                                ReceiverWorkerMessageState::Header => 0int,
                                ReceiverWorkerMessageState::Payload(_) => 1int,
                            }),
                {
                    context.state = match context.state {
                        ReceiverWorkerMessageState::Header => {
                            if context.buffer.len() - offset >= 3 {
                                let header_bytes = slice_to_vec(
                                    context.buffer.as_slice(),
                                    offset,
                                    offset + 3,
                                );
                                let header = Header::from_bytes(header_bytes.as_slice());
                                proof {
                                    let p = total.skip(offset as int);
                                    assert(header_bytes@ =~= p.subrange(0, 3));
                                    lemma_header_bytes_round_trip(p.subrange(0, 3));
                                    assert(header.spec_bytes() + total.skip(offset + 3) =~= p);
                                }
                                offset = offset + 3;
                                ReceiverWorkerMessageState::Payload(header)
                            } else {
                                remaining = false;
                                ReceiverWorkerMessageState::Header
                            }
                        },
                        ReceiverWorkerMessageState::Payload(header) => {
                            let payload_len = header.message_length as usize;
                            if context.buffer.len() - offset >= payload_len {
                                let payload = slice_to_vec(
                                    context.buffer.as_slice(),
                                    offset,
                                    offset + payload_len,
                                );
                                let outcome = self.process_message(&header, payload.as_slice());
                                proof {
                                    let p = spec_pending(
                                        ReceiverWorkerMessageState::Payload(header),
                                        total.skip(offset as int),
                                    );
                                    crate::bytes::lemma_be_bytes_len(
                                        header.message_length as int,
                                        2,
                                    );
                                    assert(p.subrange(0, 3) =~= header.spec_bytes());
                                    lemma_header_round_trip(header);
                                    assert(p.subrange(3, 3 + header.message_length) =~= payload@);
                                    assert(p.skip(3 + header.message_length) =~= total.skip(
                                        offset + payload_len,
                                    ));
                                    assert(spec_frames(p) == seq![(header, payload@)]
                                        + spec_frames(total.skip(offset + payload_len)));
                                    assert(spec_frames_rem(p) == spec_frames_rem(
                                        total.skip(offset + payload_len),
                                    ));
                                }
                                outcomes.push(outcome);
                                proof {
                                    emitted = emitted + seq![(header, payload@)];
                                    assert(spec_frames(s) =~= emitted + spec_frames(
                                        total.skip(offset + payload_len),
                                    ));
                                }
                                offset = offset + payload_len;
                                ReceiverWorkerMessageState::Header
                            } else {
                                proof {
                                    let p = spec_pending(
                                        ReceiverWorkerMessageState::Payload(header),
                                        total.skip(offset as int),
                                    );
                                    crate::bytes::lemma_be_bytes_len(
                                        header.message_length as int,
                                        2,
                                    );
                                    assert(p.subrange(0, 3) =~= header.spec_bytes());
                                    lemma_header_round_trip(header);
                                    assert(p.len() < 3 + header.message_length);
                                }
                                remaining = false;
                                ReceiverWorkerMessageState::Payload(header)
                            }
                        },
                    };
                }
                let buffer_len = context.buffer.len();
                let tail = slice_to_vec(context.buffer.as_slice(), offset, buffer_len);
                proof {
                    assert(tail@ =~= total.skip(offset as int));
                    assert(spec_frames(s) =~= emitted);
                    assert(spec_pending(context.state, tail@) =~= spec_pending(
                        context.state,
                        total.skip(offset as int),
                    ));
                }
                let new_context = AwaitingMessageContext { state: context.state, buffer: tail };
                (ReceiverWorkerState::AwaitingMessage(new_context), outcomes)
            },
            _ => (ReceiverWorkerState::AwaitingMessage(context), Vec::new()),
        }
    }

    /// One step of the session loop: applies an event to a state, yielding
    /// the next state (`None` when a removal ends the session for good), the
    /// framed handshake to write to the peer, if any, and the outcomes of
    /// every message the event completed, in order. The caller runs the
    /// loop, performs the write and the forwards, and supplies the clock
    /// reading a handshake would carry.
    pub fn step(
        &self,
        state: ReceiverWorkerState,
        event: ReceiverWorkerEvent,
        timestamp: u64,
    ) -> (r: (Option<ReceiverWorkerState>, Option<Vec<u8>>, Vec<MessageOutcome>))
        requires
            self.wf(),
        ensures
            event is Removed ==> r.0 is None && r.1 is None && r.2@.len() == 0,
            !(event is Removed) ==> r.0 is Some,
            !(event is Removed) && state is AwaitingConnection ==> {
                &&& event is Connected ==> (r.0 matches Some(n)
                    && n matches ReceiverWorkerState::AwaitingHandshake(c) && c.state is Header) && (
                r.1 matches Some(b) && b@ == (Header {
                    message_type: Handshake::spec_id(),
                    message_length: 92,
                }).spec_bytes() + self.spec_local_handshake(timestamp).spec_bytes())
                &&& !(event is Connected) ==> (r.0 matches Some(n) && n is AwaitingConnection)
                    && r.1 is None
                &&& r.2@.len() == 0
            },
            state matches ReceiverWorkerState::AwaitingHandshake(hc) ==> !(event is Removed)
                ==> {
                &&& r.1 is None
                &&& r.2@.len() == 0
                &&& event is Disconnected ==> (r.0 matches Some(n) && n is AwaitingConnection)
                &&& event matches ReceiverWorkerEvent::Message(bytes) ==> {
                    &&& bytes@.len() < 3 ==> (r.0 matches Some(n)
                        && n matches ReceiverWorkerState::AwaitingHandshake(c)
                        && c.state is Header)
                    &&& bytes@.len() == 3 && hc.state is Header ==> (r.0 matches Some(n)
                        && n matches ReceiverWorkerState::AwaitingHandshake(c) && c.state
                        == ReceiverWorkerMessageState::Payload(
                        Header::spec_decode(bytes@.subrange(0, 3)),
                    ))
                    &&& bytes@.len() > 3 && hc.state is Header ==> (r.0 matches Some(n)
                        && spec_handshake_outcome(
                        n,
                        Header::spec_decode(bytes@.subrange(0, 3)),
                        bytes@.skip(3),
                    ))
                    &&& hc.state matches ReceiverWorkerMessageState::Payload(h) ==> (bytes@.len()
                        >= 3 ==> (r.0 matches Some(n) && spec_handshake_outcome(n, h, bytes@)))
                }
                &&& event is Connected ==> (r.0 matches Some(n)
                    && n matches ReceiverWorkerState::AwaitingHandshake(c) && c.state == hc.state)
            },
            state matches ReceiverWorkerState::AwaitingMessage(mc) ==> !(event is Removed) ==> {
                &&& r.1 is None
                &&& event is Disconnected ==> (r.0 matches Some(n) && n is AwaitingConnection)
                    && r.2@.len() == 0
                &&& event matches ReceiverWorkerEvent::Message(bytes) ==> {
                    let s = spec_pending(mc.state, mc.buffer@) + bytes@;
                    &&& (r.0 matches Some(n) && n matches ReceiverWorkerState::AwaitingMessage(c)
                        && spec_pending(c.state, c.buffer@) == spec_frames_rem(s))
                    &&& r.2@.len() == spec_frames(s).len()
                    &&& forall|i: int|
                        0 <= i < r.2@.len() ==> spec_outcome_ok(
                            #[trigger] r.2@[i],
                            spec_frames(s)[i].0,
                            spec_frames(s)[i].1,
                        )
                }
                &&& event is Connected ==> (r.0 matches Some(n)
                    && n matches ReceiverWorkerState::AwaitingMessage(c) && c.state == mc.state
                    && c.buffer@ == mc.buffer@) && r.2@.len() == 0
            },
    {
        match event {
            ReceiverWorkerEvent::Removed => (None, None, Vec::new()),
            live_event => match state {
                ReceiverWorkerState::AwaitingConnection(context) => {
                    let (next, send) = self.connection_handler(context, live_event, timestamp);
                    (Some(next), send, Vec::new())
                },
                ReceiverWorkerState::AwaitingHandshake(context) => (
                    Some(self.handshake_handler(context, live_event)),
                    None,
                    Vec::new(),
                ),
                ReceiverWorkerState::AwaitingMessage(context) => {
                    let (next, outcomes) = self.message_handler(context, live_event);
                    (Some(next), None, outcomes)
                },
            },
        }
    }
}

/// What trying a handshake payload leaves behind: the message phase with an
/// empty buffer when it decodes, a fresh wait for a header when it does not.
pub open spec fn spec_handshake_outcome(r: ReceiverWorkerState, h: Header, s: Seq<u8>) -> bool {
    if h.message_type == Handshake::spec_id() && Handshake::spec_min() <= s.len()
        <= Handshake::spec_max() {
        r matches ReceiverWorkerState::AwaitingMessage(c) && c.state is Header && c.buffer@.len()
            == 0
    } else {
        r matches ReceiverWorkerState::AwaitingHandshake(c) && c.state is Header
    }
}

} // verus!
