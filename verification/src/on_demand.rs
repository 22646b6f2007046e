//! The dispatcher core: the request queue and peer registry, with the
//! operations that move requests and peers between them.

use vstd::prelude::*;
use std::collections::VecDeque;
use futures::channel::oneshot::{Receiver, Sender};
use linked_hash_map::LinkedHashMap;
use crate::active::{
    active_back_timestamp, active_contains, active_entries, active_front_timestamp, active_get_id,
    active_insert, active_keys, active_new, active_pop_front, active_remove, entry_keys, has_key,
};
use crate::message::{self, Dispatched};
use crate::model::{
    lemma_add_peer_wf, lemma_dispatch_step_wf, lemma_dispatch_wf, lemma_idle_index,
    lemma_insert_wf, lemma_maintain_wf, lemma_remove_peer_wf, lemma_remove_wf, lemma_requeue_wf,
    response_transition, spec_add_peer, spec_dispatch, spec_dispatch_loop, spec_evict,
    spec_insert, spec_maintain, spec_on_connect, spec_remove, spec_remove_peer, spec_requeue,
    spec_requeued, spec_stamp, CoreModel, REQUEST_TIMEOUT,
};
use crate::request::{dispatched_matches, Request, RequestData};
use crate::sink::{oneshot_channel, oneshot_send, oneshot_wait};
use crate::types::{
    spec_role_serves, CallResult, Error, PeerId, RemoteCallRequest, RemoteReadRequest,
    ROLE_COLLATOR, ROLE_FULL, ROLE_VALIDATOR,
};

verus! {

/// The dispatcher core: a FIFO of requests awaiting a peer, the registry of
/// idle and actively serving peers, the id counter, and whether an outbound
/// link is set. All contracts speak of its abstract state, a [`CoreModel`].
pub struct OnDemandCore {
    linked: bool,
    next_request_id: u64,
    pending_requests: VecDeque<Request>,
    active_peers: LinkedHashMap<PeerId, Request>,
    idle_peers: Vec<PeerId>,
}

impl View for OnDemandCore {
    type V = CoreModel;

    closed spec fn view(&self) -> CoreModel {
        CoreModel {
            linked: self.linked,
            next_request_id: self.next_request_id,
            pending: self.pending_requests@,
            active: active_entries(self.active_peers),
            idle: self.idle_peers@,
        }
    }
}

impl OnDemandCore {
    /// A fresh core: nothing pending, no peers, ids from zero, no link.
    pub fn new() -> (core: Self)
        ensures
            core@ == (CoreModel {
                linked: false,
                next_request_id: 0,
                pending: Seq::<Request>::empty(),
                active: Seq::<(PeerId, Request)>::empty(),
                idle: Seq::<PeerId>::empty(),
            }),
            core@.wf(),
    {
        OnDemandCore {
            linked: false,
            next_request_id: 0,
            pending_requests: VecDeque::new(),
            active_peers: active_new(),
            idle_peers: Vec::new(),
        }
    }

    /// Set or clear the outbound link. While no link is set, the dispatch
    /// step is suspended: requests queue up and peers stay idle.
    pub fn set_link(&mut self, linked: bool)
        ensures
            final(self)@ == (CoreModel { linked, ..old(self)@ }),
    {
        self.linked = linked;
    }

    /// Whether `peer` sits in the idle sequence.
    fn idle_contains(&self, peer: PeerId) -> (r: bool)
        ensures
            r == self@.idle.contains(peer),
    {
        let n = self.idle_peers.len();
        let mut i: usize = 0;
        while i < n
            invariant
                i <= n,
                n == self@.idle.len(),
                forall|j: int| 0 <= j < i ==> self@.idle[j] != peer,
            decreases n - i,
        {
            if self.idle_peers[i] == peer {
                assert(self@.idle[i as int] == peer);
                return true;
            }
            i += 1;
        }
        assert(!self@.idle.contains(peer));
        false
    }

    /// The position of `peer` in the idle sequence, if present.
    fn idle_position(&self, peer: PeerId) -> (r: Option<usize>)
        ensures
            match r {
                Some(i) => i < self@.idle.len() && self@.idle[i as int] == peer,
                None => !self@.idle.contains(peer),
            },
    {
        let n = self.idle_peers.len();
        let mut i: usize = 0;
        while i < n
            invariant
                i <= n,
                n == self@.idle.len(),
                forall|j: int| 0 <= j < i ==> self@.idle[j] != peer,
            decreases n - i,
        {
            if self.idle_peers[i] == peer {
                return Some(i);
            }
            i += 1;
        }
        assert(!self@.idle.contains(peer));
        None
    }

    /// Admit a peer to the idle tail, unless it is already tracked. A peer
    /// only ever appears once across the registry.
    pub fn add_peer(&mut self, peer: PeerId)
        requires
            old(self)@.wf(),
        ensures
            final(self)@ == spec_add_peer(old(self)@, peer),
            final(self)@.wf(),
    {
        proof {
            lemma_add_peer_wf(old(self)@, peer);
        }
        let known = self.idle_contains(peer) || active_contains(&self.active_peers, peer);
        if !known {
            self.idle_peers.push(peer);
        }
    }

    /// Forget a peer. An active peer's in-flight request returns to the
    /// front of the pending queue, to retry first on the next idle peer; an
    /// idle peer is swapped out of the idle sequence; an unknown peer leaves
    /// the state unchanged.
    pub fn remove_peer(&mut self, peer: PeerId)
        requires
            old(self)@.wf(),
        ensures
            final(self)@ == spec_remove_peer(old(self)@, peer),
            final(self)@.wf(),
    {
        proof {
            lemma_remove_peer_wf(old(self)@, peer);
        }
        match active_remove(&mut self.active_peers, peer) {
            Some(request) => {
                self.pending_requests.push_front(request);
            },
            None => {
                match self.idle_position(peer) {
                    Some(i) => {
                        proof {
                            lemma_idle_index(old(self)@.idle, peer, i as int);
                        }
                        self.idle_peers.swap_remove(i);
                    },
                    None => {},
                }
            },
        }
    }

    /// Enqueue a new request at the tail of the pending queue. It takes the
    /// next id — ids grow strictly over the life of the core — and is
    /// stamped with `now`.
    pub fn insert(&mut self, data: RequestData, now: u64)
        requires
            old(self)@.wf(),
            old(self)@.next_request_id < u64::MAX,
        ensures
            final(self)@ == spec_insert(old(self)@, data, now),
            final(self)@.wf(),
    {
        proof {
            lemma_insert_wf(old(self)@, data, now);
        }
        let request_id = self.next_request_id;
        self.next_request_id = self.next_request_id + 1;
        self.pending_requests.push_back(
            Request { id: request_id, timestamp: now, data },
        );
    }

    /// Accept a response envelope from `peer` carrying request id `id`. On a
    /// match — the peer is active and its stored request carries exactly
    /// that id — the entry leaves the active map, the peer returns to the
    /// idle tail (it behaved at the protocol level), and the stored request
    /// is handed out for verification. Otherwise nothing changes and the
    /// caller treats the peer as misbehaving.
    pub fn remove(&mut self, peer: PeerId, id: u64) -> (r: Option<Request>)
        requires
            old(self)@.wf(),
        ensures
            final(self)@ == spec_remove(old(self)@, peer, id).0,
            r == spec_remove(old(self)@, peer, id).1,
            final(self)@.wf(),
            r matches Some(request) ==> request.id == id
                && request.id < final(self)@.next_request_id
                && !final(self)@.pending_has_id(id)
                && !final(self)@.active_has_id(id)
                && !has_key(final(self)@.active, peer),
    {
        proof {
            lemma_remove_wf(old(self)@, peer, id);
        }
        match active_get_id(&self.active_peers, peer) {
            Some(stored_id) => {
                if stored_id == id {
                    let removed = active_remove(&mut self.active_peers, peer);
                    self.idle_peers.push(peer);
                    removed
                } else {
                    None
                }
            },
            None => None,
        }
    }

    /// Return a request to the front of the pending queue, unchanged: it
    /// keeps its id and its timestamp. Only a request the core is not
    /// tracking (one handed out by [`Self::remove`]) may be requeued.
    pub fn requeue(&mut self, request: Request)
        requires
            old(self)@.wf(),
            request.id < old(self)@.next_request_id,
            !old(self)@.pending_has_id(request.id),
            !old(self)@.active_has_id(request.id),
        ensures
            final(self)@ == spec_requeue(old(self)@, request),
            final(self)@.wf(),
    {
        proof {
            lemma_requeue_wf(old(self)@, request);
        }
        self.pending_requests.push_front(request);
    }

    /// Evict every peer at the front of the active map whose request has
    /// timed out at `now`. Each evicted peer's request returns to the front
    /// of the pending queue and the peer is reported, oldest dispatch first,
    /// for the caller to disconnect. The scan stops at the first entry still
    /// within the timeout: the active map is ordered by dispatch time, so no
    /// later entry can have expired.
    #[verifier::loop_isolation(false)]
    pub fn maintain_peers(&mut self, now: u64) -> (bad: Vec<PeerId>)
        requires
            old(self)@.wf(),
        ensures
            final(self)@ == spec_maintain(old(self)@, now).0,
            bad@ == spec_maintain(old(self)@, now).1,
            final(self)@.wf(),
    {
        proof {
            lemma_maintain_wf(old(self)@, now);
        }
        let mut bad_peers: Vec<PeerId> = Vec::new();
        proof {
            assert(spec_maintain(old(self)@, now).1 =~= bad_peers@ + spec_maintain(
                old(self)@,
                now,
            ).1);
        }
        loop
            invariant
                spec_maintain(old(self)@, now).0 == spec_maintain(self@, now).0,
                spec_maintain(old(self)@, now).1 == bad_peers@ + spec_maintain(self@, now).1,
            decreases self@.active.len(),
        {
            let ghost pre = self@;
            let expired = match active_front_timestamp(&self.active_peers) {
                Some(ts) => now >= REQUEST_TIMEOUT && ts <= now - REQUEST_TIMEOUT,
                None => false,
            };
            if !expired {
                proof {
                    assert(spec_maintain(pre, now).0 == pre);
                    assert(bad_peers@ + spec_maintain(pre, now).1 =~= bad_peers@);
                }
                return bad_peers;
            }
            let popped = active_pop_front(&mut self.active_peers);
            match popped {
                Some((bad_peer, request)) => {
                    self.pending_requests.push_front(request);
                    bad_peers.push(bad_peer);
                    proof {
                        let m1 = CoreModel {
                            active: pre.active.drop_first(),
                            pending: seq![pre.active[0].1] + pre.pending,
                            ..pre
                        };
                        assert(self@ == m1);
                        assert(spec_maintain(pre, now).1 == seq![pre.active[0].0] + spec_maintain(
                            m1,
                            now,
                        ).1);
                        assert(bad_peers@ + spec_maintain(m1, now).1 =~= (bad_peers@.drop_last()
                            + (seq![pre.active[0].0] + spec_maintain(m1, now).1)));
                    }
                },
                None => {
                    proof {
                        assert(false);
                    }
                },
            }
        }
    }

    /// Pair pending requests with idle peers: while both exist, the front
    /// pending request goes out to the front idle peer, stamped with `now`
    /// (clamped so it never falls below the newest active entry), and the
    /// pair joins the back of the active map. The outbound messages are
    /// returned in dispatch order for the caller to send. Without an
    /// outbound link nothing is paired; with one, no request is left
    /// pending while a peer sits idle.
    #[verifier::loop_isolation(false)]
    pub fn dispatch(&mut self, now: u64) -> (out: Vec<Dispatched>)
        requires
            old(self)@.wf(),
        ensures
            final(self)@ == spec_dispatch(old(self)@, now).0,
            dispatched_matches(out@, spec_dispatch(old(self)@, now).1),
            final(self)@.wf(),
            old(self)@.linked ==> final(self)@.pending.len() == 0 || final(self)@.idle.len() == 0,
    {
        proof {
            lemma_dispatch_wf(old(self)@, now);
        }
        if !self.linked {
            return Vec::new();
        }
        let stamp = match active_back_timestamp(&self.active_peers) {
            Some(ts) => if ts > now {
                ts
            } else {
                now
            },
            None => now,
        };
        proof {
            assert(stamp == spec_stamp(old(self)@, now));
        }
        let mut out: Vec<Dispatched> = Vec::new();
        let ghost mut done: Seq<(PeerId, Request)> = Seq::empty();
        proof {
            assert(spec_dispatch_loop(old(self)@, stamp).1 =~= done + spec_dispatch_loop(
                old(self)@,
                stamp,
            ).1);
        }
        loop
            invariant
                self@.wf(),
                self@.active.len() > 0 ==> self@.active[self@.active.len() - 1].1.timestamp
                    <= stamp,
                spec_dispatch_loop(old(self)@, stamp).0 == spec_dispatch_loop(self@, stamp).0,
                spec_dispatch_loop(old(self)@, stamp).1 == done + spec_dispatch_loop(
                    self@,
                    stamp,
                ).1,
                dispatched_matches(out@, done),
            decreases self@.pending.len(),
        {
            let ghost pre = self@;
            if self.pending_requests.len() == 0 || self.idle_peers.len() == 0 {
                proof {
                    assert(spec_dispatch_loop(pre, stamp).0 == pre);
                    assert(done + spec_dispatch_loop(pre, stamp).1 =~= done);
                }
                return out;
            }
            let peer = self.idle_peers.remove(0);
            let popped = self.pending_requests.pop_front();
            match popped {
                Some(mut request) => {
                    request.timestamp = stamp;
                    let ghost stamped = request;
                    let message = request.message();
                    active_insert(&mut self.active_peers, peer, request);
                    out.push(Dispatched { peer, message });
                    proof {
                        lemma_dispatch_step_wf(pre, stamp);
                        let m1 = CoreModel {
                            pending: pre.pending.drop_first(),
                            idle: pre.idle.drop_first(),
                            active: pre.active.push((peer, stamped)),
                            ..pre
                        };
                        assert(pre.idle.remove(0) =~= pre.idle.drop_first());
                        assert(self@ == m1);
                        assert(spec_dispatch_loop(pre, stamp).1 == seq![(peer, stamped)]
                            + spec_dispatch_loop(m1, stamp).1);
                        done = done.push((peer, stamped));
                        assert(done + spec_dispatch_loop(m1, stamp).1 =~= (done.drop_last() + (seq![
                            (peer, stamped),
                        ] + spec_dispatch_loop(m1, stamp).1)));
                    }
                },
                None => {
                    proof {
                        assert(false);
                    }
                },
            }
        }
    }
}

/// Pure verifier of returned proofs, supplied by the light client. The
/// dispatcher assumes nothing of its verdicts: every contract holds whatever
/// a checker decides.
pub trait FetchChecker {
    /// Validate a read proof against the original read request, returning
    /// the proven storage value (`None` when the key is absent) or an error
    /// when the proof does not check out.
    fn check_read_proof(&self, request: &RemoteReadRequest, remote_proof: Vec<Vec<u8>>) -> Result<
        Option<Vec<u8>>,
        Error,
    >;

    /// Validate an execution proof against the original call request,
    /// returning the proven call result or an error when the proof does not
    /// check out.
    fn check_execution_proof(
        &self,
        request: &RemoteCallRequest,
        remote_proof: (Vec<u8>, Vec<Vec<u8>>),
    ) -> Result<CallResult, Error>;
}

/// Consumer-side handle for a remote call: it resolves once the dispatcher
/// delivers a verified call result into the paired sink.
pub struct RemoteCallResponse {
    receiver: Receiver<CallResult>,
}

/// Consumer-side handle for a remote read: it resolves once the dispatcher
/// delivers a verified read value into the paired sink.
pub struct RemoteReadResponse {
    receiver: Receiver<Option<Vec<u8>>>,
}

impl RemoteCallResponse {
    /// Block until the verified call result arrives. The one failure a
    /// consumer ever sees is cancellation: the dispatcher dropped the sink
    /// without writing it.
    pub fn wait(self) -> (r: Result<CallResult, Error>)
        ensures
            r matches Err(e) ==> e is RemoteFetchCancelled,
    {
        match oneshot_wait(self.receiver) {
            Some(result) => Ok(result),
            None => Err(Error::RemoteFetchCancelled),
        }
    }
}

impl RemoteReadResponse {
    /// Block until the verified read value arrives. The one failure a
    /// consumer ever sees is cancellation: the dispatcher dropped the sink
    /// without writing it.
    pub fn wait(self) -> (r: Result<Option<Vec<u8>>, Error>)
        ensures
            r matches Err(e) ==> e is RemoteFetchCancelled,
    {
        match oneshot_wait(self.receiver) {
            Some(value) => Ok(value),
            None => Err(Error::RemoteFetchCancelled),
        }
    }
}

/// The service surface the network driver calls into. Operations take the
/// current time in milliseconds and return the outbound messages — and,
/// where peers misbehaved, the peers to disconnect — for the caller to carry
/// out at the transport.
pub trait OnDemandService: Sized {
    /// The abstract dispatcher state the contracts speak of.
    spec fn model(&self) -> CoreModel;

    /// A peer connected with the given role flags. It is admitted to the
    /// idle tail only if its role lets it serve; light peers are ignored.
    /// New capacity is consumed at once: the returned messages go out.
    fn on_connect(&mut self, peer: PeerId, role: u8, now: u64) -> (sent: Vec<Dispatched>)
        requires
            old(self).model().wf(),
        ensures
            final(self).model() == spec_on_connect(old(self).model(), peer, role, now).0,
            dispatched_matches(sent@, spec_on_connect(old(self).model(), peer, role, now).1),
            final(self).model().wf(),
            spec_role_serves(role) && final(self).model().linked ==> final(self).model().pending.len() == 0 || final(self).model().idle.len() == 0,
    ;

    /// A peer disconnected. It is forgotten; an in-flight request returns to
    /// the front of the pending queue and is redispatched at once if another
    /// peer sits idle.
    fn on_disconnect(&mut self, peer: PeerId, now: u64) -> (sent: Vec<Dispatched>)
        requires
            old(self).model().wf(),
        ensures
            final(self).model() == spec_evict(old(self).model(), peer, now).0,
            dispatched_matches(sent@, spec_evict(old(self).model(), peer, now).1),
            final(self).model().wf(),
            final(self).model().linked ==> final(self).model().pending.len() == 0 || final(self).model().idle.len() == 0,
    ;

    /// Periodic upkeep: every peer at the front of the active map whose
    /// request has timed out at `now` is evicted, its request requeued at
    /// the front, and its id returned for the caller to disconnect; the
    /// requeued work is then redispatched.
    fn maintain_peers(&mut self, now: u64) -> (r: (Vec<PeerId>, Vec<Dispatched>))
        requires
            old(self).model().wf(),
        ensures
            r.0@ == spec_maintain(old(self).model(), now).1,
            final(self).model() == spec_dispatch(spec_maintain(old(self).model(), now).0, now).0,
            dispatched_matches(
                r.1@,
                spec_dispatch(spec_maintain(old(self).model(), now).0, now).1,
            ),
            final(self).model().wf(),
            final(self).model().linked ==> final(self).model().pending.len() == 0 || final(self).model().idle.len() == 0,
    ;

    /// A read response arrived from `peer`. See [`response_transition`] for
    /// what holds afterwards, whatever the proof checker decided: the result
    /// carries the peer to disconnect, if any, and the messages the closing
    /// dispatch step produced.
    fn on_remote_read_response(
        &mut self,
        peer: PeerId,
        response: message::RemoteReadResponse,
        now: u64,
    ) -> (r: (Option<PeerId>, Vec<Dispatched>))
        requires
            old(self).model().wf(),
        ensures
            response_transition(
                old(self).model(),
                peer,
                response.id,
                false,
                final(self).model(),
                r.0,
                r.1@,
                now,
            ),
            final(self).model().wf(),
            final(self).model().linked ==> final(self).model().pending.len() == 0 || final(self).model().idle.len() == 0,
    ;

    /// A call response arrived from `peer`. See [`response_transition`] for
    /// what holds afterwards, whatever the proof checker decided: the result
    /// carries the peer to disconnect, if any, and the messages the closing
    /// dispatch step produced.
    fn on_remote_call_response(
        &mut self,
        peer: PeerId,
        response: message::RemoteCallResponse,
        now: u64,
    ) -> (r: (Option<PeerId>, Vec<Dispatched>))
        requires
            old(self).model().wf(),
        ensures
            response_transition(
                old(self).model(),
                peer,
                response.id,
                true,
                final(self).model(),
                r.0,
                r.1@,
                now,
            ),
            final(self).model().wf(),
            final(self).model().linked ==> final(self).model().pending.len() == 0 || final(self).model().idle.len() == 0,
    ;
}

/// The on-demand service: the dispatcher core together with the proof
/// checker the light client supplied. The network driver speaks to it
/// through [`OnDemandService`]; the light client submits work through
/// [`OnDemand::remote_call`] and [`OnDemand::remote_read`].
pub struct OnDemand<C: FetchChecker> {
    core: OnDemandCore,
    checker: C,
}

impl<C: FetchChecker> OnDemand<C> {
    /// A fresh service around the given proof checker: nothing pending, no
    /// peers, ids from zero, no link.
    pub fn new(checker: C) -> (service: Self)
        ensures
            service.model() == (CoreModel {
                linked: false,
                next_request_id: 0,
                pending: Seq::<Request>::empty(),
                active: Seq::<(PeerId, Request)>::empty(),
                idle: Seq::<PeerId>::empty(),
            }),
            service.model().wf(),
    {
        OnDemand { core: OnDemandCore::new(), checker }
    }

    /// Set or clear the link to the network service. While no link is set,
    /// dispatch is suspended: requests queue up and peers stay idle.
    pub fn set_service_link(&mut self, linked: bool)
        ensures
            final(self).model() == (CoreModel { linked, ..old(self).model() }),
    {
        self.core.set_link(linked);
    }

    /// Submit a remote call. The request is enqueued — taking the next id —
    /// and dispatched at once if a peer sits idle; the returned handle
    /// resolves when a verified result is delivered. The returned messages
    /// go out to the transport.
    pub fn remote_call(&mut self, request: RemoteCallRequest, now: u64) -> (r: (
        RemoteCallResponse,
        Vec<Dispatched>,
    ))
        requires
            old(self).model().wf(),
            old(self).model().next_request_id < u64::MAX,
        ensures
            exists|s: Sender<CallResult>|
                final(self).model() == spec_dispatch(
                    #[trigger] spec_insert(
                        old(self).model(),
                        RequestData::RemoteCall(request, s),
                        now,
                    ),
                    now,
                ).0 && dispatched_matches(
                    r.1@,
                    spec_dispatch(
                        spec_insert(old(self).model(), RequestData::RemoteCall(request, s), now),
                        now,
                    ).1,
                ),
            final(self).model().wf(),
            final(self).model().linked ==> final(self).model().pending.len() == 0 || final(self).model().idle.len() == 0,
    {
        let (sender, receiver) = oneshot_channel::<CallResult>();
        let ghost witness = sender;
        self.core.insert(RequestData::RemoteCall(request, sender), now);
        let sent = self.core.dispatch(now);
        proof {
            assert(final(self).model() == spec_dispatch(
                spec_insert(old(self).model(), RequestData::RemoteCall(request, witness), now),
                now,
            ).0);
        }
        (RemoteCallResponse { receiver }, sent)
    }

    /// Submit a remote read. The request is enqueued — taking the next id —
    /// and dispatched at once if a peer sits idle; the returned handle
    /// resolves when a verified value is delivered. The returned messages go
    /// out to the transport.
    pub fn remote_read(&mut self, request: RemoteReadRequest, now: u64) -> (r: (
        RemoteReadResponse,
        Vec<Dispatched>,
    ))
        requires
            old(self).model().wf(),
            old(self).model().next_request_id < u64::MAX,
        ensures
            exists|s: Sender<Option<Vec<u8>>>|
                final(self).model() == spec_dispatch(
                    #[trigger] spec_insert(
                        old(self).model(),
                        RequestData::RemoteRead(request, s),
                        now,
                    ),
                    now,
                ).0 && dispatched_matches(
                    r.1@,
                    spec_dispatch(
                        spec_insert(old(self).model(), RequestData::RemoteRead(request, s), now),
                        now,
                    ).1,
                ),
            final(self).model().wf(),
            final(self).model().linked ==> final(self).model().pending.len() == 0 || final(self).model().idle.len() == 0,
    {
        let (sender, receiver) = oneshot_channel::<Option<Vec<u8>>>();
        let ghost witness = sender;
        self.core.insert(RequestData::RemoteRead(request, sender), now);
        let sent = self.core.dispatch(now);
        proof {
            assert(final(self).model() == spec_dispatch(
                spec_insert(old(self).model(), RequestData::RemoteRead(request, witness), now),
                now,
            ).0);
        }
        (RemoteReadResponse { receiver }, sent)
    }

    /// The idle peers, in arrival order.
    pub fn idle_peers(&self) -> (r: Vec<PeerId>)
        ensures
            r@ == self.model().idle,
    {
        let r = self.core.idle_peers.clone();
        proof {
            assert(r@ =~= self.model().idle);
        }
        r
    }

    /// The active peers, oldest dispatch first.
    pub fn active_peers(&self) -> (r: Vec<PeerId>)
        ensures
            r@ == entry_keys(self.model().active),
    {
        active_keys(&self.core.active_peers)
    }

    /// How many requests await a peer.
    pub fn pending_len(&self) -> (n: usize)
        ensures
            n == self.model().pending.len(),
    {
        self.core.pending_requests.len()
    }

    /// The id the next submitted request will receive. Submission needs this
    /// to stay below `u64::MAX`; a caller that cannot prove it checks first.
    pub fn next_request_id(&self) -> (id: u64)
        ensures
            id == self.model().next_request_id,
    {
        self.core.next_request_id
    }

    /// Evict a peer after a matched but unacceptable response: the peer
    /// leaves the registry (the caller disconnects it at the transport), the
    /// original request returns to the front of the pending queue, and the
    /// dispatch step redistributes the work.
    fn evict_and_requeue(&mut self, peer: PeerId, request: Request, now: u64) -> (sent: Vec<
        Dispatched,
    >)
        requires
            old(self).model().wf(),
            request.id < old(self).model().next_request_id,
            !old(self).model().pending_has_id(request.id),
            !old(self).model().active_has_id(request.id),
            !has_key(old(self).model().active, peer),
        ensures
            final(self).model() == spec_requeued(old(self).model(), peer, request, now).0,
            dispatched_matches(sent@, spec_requeued(old(self).model(), peer, request, now).1),
            final(self).model().wf(),
            final(self).model().linked ==> final(self).model().pending.len() == 0 || final(self).model().idle.len() == 0,
    {
        self.core.remove_peer(peer);
        proof {
            assert(self.core@.pending == old(self).model().pending);
            assert(self.core@.active == old(self).model().active);
            assert(self.core@.next_request_id == old(self).model().next_request_id);
        }
        self.core.requeue(request);
        self.core.dispatch(now)
    }

    /// Apply the checker's verdict to a matched call request: a verified
    /// result is delivered into the request's sink (best-effort: a consumer
    /// that dropped its handle is not an error) and the peer stays idle; a
    /// rejection evicts the peer and requeues the original request.
    fn settle_call(
        &mut self,
        peer: PeerId,
        id: u64,
        timestamp: u64,
        payload: RemoteCallRequest,
        sender: Sender<CallResult>,
        verdict: Result<CallResult, Error>,
        now: u64,
    ) -> (r: (Option<PeerId>, Vec<Dispatched>))
        requires
            old(self).model().wf(),
            id < old(self).model().next_request_id,
            !old(self).model().pending_has_id(id),
            !old(self).model().active_has_id(id),
            !has_key(old(self).model().active, peer),
        ensures
            verdict matches Ok(_) ==> r.0 is None && final(self).model() == spec_dispatch(
                old(self).model(),
                now,
            ).0 && dispatched_matches(r.1@, spec_dispatch(old(self).model(), now).1),
            verdict matches Err(_) ==> r.0 == Some(peer) && final(self).model() == spec_requeued(
                old(self).model(),
                peer,
                Request { id, timestamp, data: RequestData::RemoteCall(payload, sender) },
                now,
            ).0 && dispatched_matches(
                r.1@,
                spec_requeued(
                    old(self).model(),
                    peer,
                    Request { id, timestamp, data: RequestData::RemoteCall(payload, sender) },
                    now,
                ).1,
            ),
            final(self).model().wf(),
            final(self).model().linked ==> final(self).model().pending.len() == 0 || final(self).model().idle.len() == 0,
    {
        match verdict {
            Ok(result) => {
                oneshot_send(sender, result);
                let sent = self.core.dispatch(now);
                (None, sent)
            },
            Err(_error) => {
                let sent = self.evict_and_requeue(
                    peer,
                    Request { id, timestamp, data: RequestData::RemoteCall(payload, sender) },
                    now,
                );
                (Some(peer), sent)
            },
        }
    }

    /// Apply the checker's verdict to a matched read request: a verified
    /// value is delivered into the request's sink (best-effort: a consumer
    /// that dropped its handle is not an error) and the peer stays idle; a
    /// rejection evicts the peer and requeues the original request.
    fn settle_read(
        &mut self,
        peer: PeerId,
        id: u64,
        timestamp: u64,
        payload: RemoteReadRequest,
        sender: Sender<Option<Vec<u8>>>,
        verdict: Result<Option<Vec<u8>>, Error>,
        now: u64,
    ) -> (r: (Option<PeerId>, Vec<Dispatched>))
        requires
            old(self).model().wf(),
            id < old(self).model().next_request_id,
            !old(self).model().pending_has_id(id),
            !old(self).model().active_has_id(id),
            !has_key(old(self).model().active, peer),
        ensures
            verdict matches Ok(_) ==> r.0 is None && final(self).model() == spec_dispatch(
                old(self).model(),
                now,
            ).0 && dispatched_matches(r.1@, spec_dispatch(old(self).model(), now).1),
            verdict matches Err(_) ==> r.0 == Some(peer) && final(self).model() == spec_requeued(
                old(self).model(),
                peer,
                Request { id, timestamp, data: RequestData::RemoteRead(payload, sender) },
                now,
            ).0 && dispatched_matches(
                r.1@,
                spec_requeued(
                    old(self).model(),
                    peer,
                    Request { id, timestamp, data: RequestData::RemoteRead(payload, sender) },
                    now,
                ).1,
            ),
            final(self).model().wf(),
            final(self).model().linked ==> final(self).model().pending.len() == 0 || final(self).model().idle.len() == 0,
    {
        match verdict {
            Ok(value) => {
                oneshot_send(sender, value);
                let sent = self.core.dispatch(now);
                (None, sent)
            },
            Err(_error) => {
                let sent = self.evict_and_requeue(
                    peer,
                    Request { id, timestamp, data: RequestData::RemoteRead(payload, sender) },
                    now,
                );
                (Some(peer), sent)
            },
        }
    }
}

impl<C: FetchChecker> OnDemandService for OnDemand<C> {
    closed spec fn model(&self) -> CoreModel {
        self.core@
    }

    fn on_connect(&mut self, peer: PeerId, role: u8, now: u64) -> (sent: Vec<Dispatched>) {
        if role & (ROLE_FULL | ROLE_COLLATOR | ROLE_VALIDATOR) == 0 {
            return Vec::new();
        }
        self.core.add_peer(peer);
        self.core.dispatch(now)
    }

    fn on_disconnect(&mut self, peer: PeerId, now: u64) -> (sent: Vec<Dispatched>) {
        self.core.remove_peer(peer);
        self.core.dispatch(now)
    }

    fn maintain_peers(&mut self, now: u64) -> (r: (Vec<PeerId>, Vec<Dispatched>)) {
        let bad_peers = self.core.maintain_peers(now);
        let sent = self.core.dispatch(now);
        (bad_peers, sent)
    }

    fn on_remote_read_response(
        &mut self,
        peer: PeerId,
        response: message::RemoteReadResponse,
        now: u64,
    ) -> (r: (Option<PeerId>, Vec<Dispatched>)) {
        let message::RemoteReadResponse { id, proof } = response;
        match self.core.remove(peer, id) {
            None => {
                self.core.remove_peer(peer);
                let sent = self.core.dispatch(now);
                (Some(peer), sent)
            },
            Some(request) => {
                let Request { id: request_id, timestamp, data } = request;
                match data {
                    RequestData::RemoteRead(payload, sender) => {
                        let verdict = self.checker.check_read_proof(&payload, proof);
                        self.settle_read(peer, request_id, timestamp, payload, sender, verdict, now)
                    },
                    RequestData::RemoteCall(payload, sender) => {
                        let sent = self.evict_and_requeue(
                            peer,
                            Request {
                                id: request_id,
                                timestamp,
                                data: RequestData::RemoteCall(payload, sender),
                            },
                            now,
                        );
                        (Some(peer), sent)
                    },
                }
            },
        }
    }

    fn on_remote_call_response(
        &mut self,
        peer: PeerId,
        response: message::RemoteCallResponse,
        now: u64,
    ) -> (r: (Option<PeerId>, Vec<Dispatched>)) {
        let message::RemoteCallResponse { id, value, proof } = response;
        match self.core.remove(peer, id) {
            None => {
                self.core.remove_peer(peer);
                let sent = self.core.dispatch(now);
                (Some(peer), sent)
            },
            Some(request) => {
                let Request { id: request_id, timestamp, data } = request;
                match data {
                    RequestData::RemoteCall(payload, sender) => {
                        let verdict = self.checker.check_execution_proof(&payload, (value, proof));
                        self.settle_call(peer, request_id, timestamp, payload, sender, verdict, now)
                    },
                    RequestData::RemoteRead(payload, sender) => {
                        let sent = self.evict_and_requeue(
                            peer,
                            Request {
                                id: request_id,
                                timestamp,
                                data: RequestData::RemoteRead(payload, sender),
                            },
                            now,
                        );
                        (Some(peer), sent)
                    },
                }
            },
        }
    }
}

} // verus!
