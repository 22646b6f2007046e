//! The dispatcher's unit of work: a numbered request carrying its payload and
//! the one-shot sink its verified result is delivered into.

use vstd::prelude::*;
use futures::channel::oneshot::Sender;
use crate::message::{self, Dispatched, Message};
use crate::types::{CallResult, PeerId, RemoteCallRequest, RemoteReadRequest};

verus! {

/// Payload of a request together with the completion sink its verified
/// result is written into.
pub enum RequestData {
    /// A storage read, completed with the read value (`None` if absent).
    RemoteRead(RemoteReadRequest, Sender<Option<Vec<u8>>>),
    /// A runtime call, completed with the verified call result.
    RemoteCall(RemoteCallRequest, Sender<CallResult>),
}

/// A job the dispatcher tracks: a unique id, the time of its last enqueue or
/// dispatch in milliseconds, and its payload.
pub struct Request {
    /// Identifier unique within one dispatcher; echoed by the serving peer.
    pub id: u64,
    /// When the request was last stamped: at enqueue, then at each dispatch.
    pub timestamp: u64,
    /// What is asked of the peer, and where the result goes.
    pub data: RequestData,
}

/// True when the outbound message `m` is the one that announces request `r`:
/// same id, and the payload fields carried over, compared at view level.
pub open spec fn msg_announces_request(m: Message, r: Request) -> bool {
    match r.data {
        RequestData::RemoteCall(d, _) => {
            &&& m matches Message::RemoteCallRequest(c)
            &&& c.id == r.id
            &&& c.block == d.block
            &&& c.method@ == d.method@
            &&& c.data@ == d.call_data@
        },
        RequestData::RemoteRead(d, _) => {
            &&& m matches Message::RemoteReadRequest(c)
            &&& c.id == r.id
            &&& c.block == d.block
            &&& c.key@ == d.key@
        },
    }
}

/// True when the outbound messages `out` announce exactly the dispatched
/// pairs `pairs`: one message per pair, addressed to the paired peer and
/// announcing the paired request, in order.
pub open spec fn dispatched_matches(out: Seq<Dispatched>, pairs: Seq<(PeerId, Request)>) -> bool {
    &&& out.len() == pairs.len()
    &&& forall|i: int|
        0 <= i < out.len() ==> (#[trigger] out[i]).peer == pairs[i].0 && msg_announces_request(
            out[i].message,
            pairs[i].1,
        )
}

/// Clone a byte vector, keeping its contents.
fn clone_bytes(v: &Vec<u8>) -> (r: Vec<u8>)
    ensures
        r@ == v@,
{
    let r = v.clone();
    proof {
        assert(r@ =~= v@);
    }
    r
}

impl Request {
    /// Build the outbound message that asks a peer to serve this request.
    pub fn message(&self) -> (m: Message)
        ensures
            msg_announces_request(m, *self),
    {
        match &self.data {
            RequestData::RemoteCall(data, _) => Message::RemoteCallRequest(
                message::RemoteCallRequest {
                    id: self.id,
                    block: data.block,
                    method: data.method.clone(),
                    data: clone_bytes(&data.call_data),
                },
            ),
            RequestData::RemoteRead(data, _) => Message::RemoteReadRequest(
                message::RemoteReadRequest {
                    id: self.id,
                    block: data.block,
                    key: clone_bytes(&data.key),
                },
            ),
        }
    }
}

} // verus!
