//! Logical wire messages: the outbound requests the dispatcher produces for
//! the network layer to send, and the inbound responses it consumes.

use vstd::prelude::*;
use crate::types::PeerId;

verus! {

/// Outbound request for a remote call, tagged with the dispatcher's request
/// id so the response can be matched to it.
pub struct RemoteCallRequest {
    /// Request id echoed back by the serving peer.
    pub id: u64,
    /// Identifier of the chain state the call runs against.
    pub block: u64,
    /// Name of the runtime method to invoke.
    pub method: String,
    /// Opaque argument bytes handed to the method.
    pub data: Vec<u8>,
}

/// Outbound request for a remote storage read, tagged with the dispatcher's
/// request id so the response can be matched to it.
pub struct RemoteReadRequest {
    /// Request id echoed back by the serving peer.
    pub id: u64,
    /// Identifier of the chain state the read runs against.
    pub block: u64,
    /// Storage key to read.
    pub key: Vec<u8>,
}

/// Inbound response to a remote call request.
pub struct RemoteCallResponse {
    /// Request id echoed from the matching outbound request.
    pub id: u64,
    /// Bytes the call returned, to be validated against the proof.
    pub value: Vec<u8>,
    /// Proof blobs backing the returned value.
    pub proof: Vec<Vec<u8>>,
}

/// Inbound response to a remote read request.
pub struct RemoteReadResponse {
    /// Request id echoed from the matching outbound request.
    pub id: u64,
    /// Proof blobs backing the read value.
    pub proof: Vec<Vec<u8>>,
}

/// A logical outbound message, ready for the network layer to encode and send.
pub enum Message {
    /// Ask a peer to execute a call and return an execution proof.
    RemoteCallRequest(RemoteCallRequest),
    /// Ask a peer to read a storage entry and return a read proof.
    RemoteReadRequest(RemoteReadRequest),
}

/// An outbound message paired with the peer it is addressed to. Dispatcher
/// operations return these for the caller to send.
pub struct Dispatched {
    /// Peer the message must be sent to.
    pub peer: PeerId,
    /// The message itself.
    pub message: Message,
}

} // verus!
