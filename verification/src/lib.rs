//! Peer wire protocol for a gossip node: binary message codecs behind a
//! three-byte type/length header, incremental reassembly of messages out of
//! arbitrarily chunked reads, protocol version negotiation, and the
//! per-connection receiver state machine that ties them together.

pub mod bytes;
pub mod errors;
pub mod header;
pub mod message;
pub mod milestone_request;
pub mod transaction_request;
pub mod heartbeat;
pub mod transaction_broadcast;
pub mod handshake;
pub mod version;
pub mod receiver;
pub mod salt;
