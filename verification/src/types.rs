//! Plain value types shared by the dispatcher: peer identifiers, peer role
//! flags, request payloads, verified results, and the error type.

use vstd::prelude::*;

verus! {

/// Stable identifier of a remote peer.
pub type PeerId = u64;

/// Role flag: the peer is itself a light client and cannot serve requests.
pub const ROLE_LIGHT: u8 = 1;

/// Role flag: the peer keeps full state and can serve requests.
pub const ROLE_FULL: u8 = 2;

/// Role flag: the peer collates blocks; it can serve requests.
pub const ROLE_COLLATOR: u8 = 4;

/// Role flag: the peer validates blocks; it can serve requests.
pub const ROLE_VALIDATOR: u8 = 8;

/// True when a peer with the given role flags may serve on-demand requests:
/// it must carry at least one of the full, collator or validator roles.
pub open spec fn spec_role_serves(role: u8) -> bool {
    role & (ROLE_FULL | ROLE_COLLATOR | ROLE_VALIDATOR) != 0
}

/// Payload of a remote call request: execute `method` with `call_data`
/// against the state identified by `block`.
pub struct RemoteCallRequest {
    /// Identifier of the chain state the call runs against.
    pub block: u64,
    /// Name of the runtime method to invoke.
    pub method: String,
    /// Opaque argument bytes handed to the method.
    pub call_data: Vec<u8>,
}

/// Payload of a remote read request: read the storage entry under `key`
/// from the state identified by `block`.
pub struct RemoteReadRequest {
    /// Identifier of the chain state the read runs against.
    pub block: u64,
    /// Storage key to read.
    pub key: Vec<u8>,
}

/// Result of a verified remote call: the bytes the invocation returned and a
/// description of the state changes it implied, as a list of storage keys
/// with their new values (`None` for a deletion).
#[derive(Debug)]
pub struct CallResult {
    /// Bytes returned by the runtime invocation.
    pub return_data: Vec<u8>,
    /// Storage changes the invocation implied.
    pub changes: Vec<(Vec<u8>, Option<Vec<u8>>)>,
}

/// Errors observable at the public surface of the dispatcher.
#[derive(Debug)]
pub enum Error {
    /// The dispatcher was dropped without writing the completion sink; the
    /// consumer's response handle resolves to this error.
    RemoteFetchCancelled,
    /// A proof checker rejected a response, with a description of why.
    Backend(String),
}

} // verus!
