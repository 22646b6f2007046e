//! Abstract model of the dispatcher core.
//!
//! [`CoreModel`] is the mathematical state every contract speaks of: the
//! pending queue, the active entries, the idle sequence, the next request id
//! and whether an outbound link is set. Each core operation has a spec-level
//! transition function here, and each transition is proved to preserve the
//! well-formedness invariant [`CoreModel::wf`].

use vstd::prelude::*;
use crate::active::{distinct_keys, has_key, key_index};
use crate::message::Dispatched;
use crate::request::{dispatched_matches, Request, RequestData};
use crate::types::{spec_role_serves, PeerId};

verus! {

/// How long a dispatched request may stay unanswered before its peer is
/// evicted, in milliseconds.
pub const REQUEST_TIMEOUT: u64 = 15000;

/// Abstract state of the dispatcher core.
pub ghost struct CoreModel {
    /// Whether an outbound link is set; without one, pairing is suspended.
    pub linked: bool,
    /// Id the next submitted request will receive.
    pub next_request_id: u64,
    /// Requests awaiting a peer, front first.
    pub pending: Seq<Request>,
    /// Serving peers with the request out to each, oldest dispatch first.
    pub active: Seq<(PeerId, Request)>,
    /// Peers ready to serve, in arrival order.
    pub idle: Seq<PeerId>,
}

/// True when a request dispatched at `ts` has timed out at `now`.
pub open spec fn spec_expired(ts: u64, now: u64) -> bool {
    ts + REQUEST_TIMEOUT <= now
}

impl CoreModel {
    /// True when some pending request carries `id`.
    pub open spec fn pending_has_id(self, id: u64) -> bool {
        exists|i: int| 0 <= i < self.pending.len() && self.pending[i].id == id
    }

    /// True when some active entry's request carries `id`.
    pub open spec fn active_has_id(self, id: u64) -> bool {
        exists|i: int| 0 <= i < self.active.len() && self.active[i].1.id == id
    }

    /// True when the dispatcher is tracking peer `p`, idle or active.
    pub open spec fn known_peer(self, p: PeerId) -> bool {
        self.idle.contains(p) || has_key(self.active, p)
    }

    /// Every known peer is in exactly one of the idle sequence and the
    /// active map, and in the idle sequence at most once.
    pub open spec fn peers_wf(self) -> bool {
        &&& forall|i: int, j: int|
            0 <= i < j < self.idle.len() ==> self.idle[i] != self.idle[j]
        &&& distinct_keys(self.active)
        &&& forall|i: int|
            0 <= i < self.idle.len() ==> !has_key(self.active, #[trigger] self.idle[i])
    }

    /// Every tracked request id was emitted (is below the id counter) and is
    /// tracked exactly once, pending or active.
    pub open spec fn ids_wf(self) -> bool {
        &&& forall|i: int|
            0 <= i < self.pending.len() ==> (#[trigger] self.pending[i].id) < self.next_request_id
        &&& forall|i: int|
            0 <= i < self.active.len() ==> (#[trigger] self.active[i].1.id) < self.next_request_id
        &&& forall|i: int, j: int|
            0 <= i < j < self.pending.len() ==> self.pending[i].id != self.pending[j].id
        &&& forall|i: int, j: int|
            0 <= i < j < self.active.len() ==> self.active[i].1.id != self.active[j].1.id
        &&& forall|i: int, j: int|
            0 <= i < self.pending.len() && 0 <= j < self.active.len() ==> self.pending[i].id
                != self.active[j].1.id
    }

    /// The active entries are ordered by dispatch timestamp, oldest first.
    pub open spec fn active_sorted(self) -> bool {
        forall|i: int, j: int|
            0 <= i <= j < self.active.len() ==> self.active[i].1.timestamp
                <= self.active[j].1.timestamp
    }

    /// The invariant every public operation preserves.
    pub open spec fn wf(self) -> bool {
        self.peers_wf() && self.ids_wf() && self.active_sorted()
    }
}

/// Admit a peer: append it to the idle tail unless it is already tracked.
pub open spec fn spec_add_peer(m: CoreModel, peer: PeerId) -> CoreModel {
    if m.known_peer(peer) {
        m
    } else {
        CoreModel { idle: m.idle.push(peer), ..m }
    }
}

/// The position of `p` in the idle sequence; meaningful only when present
/// and the sequence is duplicate-free.
pub open spec fn idle_index(idle: Seq<PeerId>, p: PeerId) -> int {
    choose|i: int| 0 <= i < idle.len() && idle[i] == p
}

/// An idle sequence with the entry at `i` removed by swapping the last
/// entry into its place, as `Vec::swap_remove` does.
pub open spec fn swap_removed(idle: Seq<PeerId>, i: int) -> Seq<PeerId> {
    idle.update(i, idle.last()).drop_last()
}

/// Forget a peer: an active peer's request returns to the front of the
/// pending queue; an idle peer is swapped out of the idle sequence; an
/// unknown peer leaves the state unchanged.
pub open spec fn spec_remove_peer(m: CoreModel, peer: PeerId) -> CoreModel {
    if has_key(m.active, peer) {
        let i = key_index(m.active, peer);
        CoreModel {
            active: m.active.remove(i),
            pending: seq![m.active[i].1] + m.pending,
            ..m
        }
    } else if m.idle.contains(peer) {
        CoreModel { idle: swap_removed(m.idle, idle_index(m.idle, peer)), ..m }
    } else {
        m
    }
}

/// Evict every peer at the front of the active map whose request has timed
/// out at `now`: each returns its request to the front of the pending queue
/// (so the most recently dispatched of them retries first) and is reported
/// for disconnection, oldest first. The scan stops at the first fresh entry.
pub open spec fn spec_maintain(m: CoreModel, now: u64) -> (CoreModel, Seq<PeerId>)
    decreases m.active.len(),
{
    if m.active.len() > 0 && spec_expired(m.active[0].1.timestamp, now) {
        let peer = m.active[0].0;
        let request = m.active[0].1;
        let m1 = CoreModel {
            active: m.active.drop_first(),
            pending: seq![request] + m.pending,
            ..m
        };
        let (m2, rest) = spec_maintain(m1, now);
        (m2, seq![peer] + rest)
    } else {
        (m, Seq::empty())
    }
}

/// Enqueue a new request: it takes the next id, is stamped with `now`, and
/// joins the tail of the pending queue.
pub open spec fn spec_insert(m: CoreModel, data: RequestData, now: u64) -> CoreModel {
    CoreModel {
        next_request_id: (m.next_request_id + 1) as u64,
        pending: m.pending.push(
            Request { id: m.next_request_id, timestamp: now, data },
        ),
        ..m
    }
}

/// Accept a response envelope: when `peer` is active and its stored request
/// carries exactly `id`, the entry leaves the active map, the peer returns
/// to the idle tail (it behaved) and the request is handed out; otherwise
/// nothing changes.
pub open spec fn spec_remove(m: CoreModel, peer: PeerId, id: u64) -> (CoreModel, Option<Request>) {
    if has_key(m.active, peer) && m.active[key_index(m.active, peer)].1.id == id {
        let i = key_index(m.active, peer);
        (
            CoreModel { active: m.active.remove(i), idle: m.idle.push(peer), ..m },
            Some(m.active[i].1),
        )
    } else {
        (m, None)
    }
}

/// Return a request to the front of the pending queue, unchanged: it keeps
/// its id and its timestamp (a requeued request ages per dispatch attempt,
/// not per lifetime).
pub open spec fn spec_requeue(m: CoreModel, request: Request) -> CoreModel {
    CoreModel { pending: seq![request] + m.pending, ..m }
}

/// The timestamp dispatched requests are stamped with: the current time,
/// clamped so it never falls below the newest active entry (the active map
/// stays ordered even if the supplied clock steps back).
pub open spec fn spec_stamp(m: CoreModel, now: u64) -> u64 {
    if m.active.len() > 0 && m.active[m.active.len() - 1].1.timestamp > now {
        m.active[m.active.len() - 1].1.timestamp
    } else {
        now
    }
}

/// The pairing loop: while requests are pending and peers are idle, the
/// front request (stamped with `stamp`) goes out to the front idle peer and
/// the pair joins the back of the active map.
pub open spec fn spec_dispatch_loop(m: CoreModel, stamp: u64) -> (CoreModel, Seq<(PeerId, Request)>)
    decreases m.pending.len(),
{
    if m.pending.len() > 0 && m.idle.len() > 0 {
        let peer = m.idle[0];
        let request = Request { timestamp: stamp, ..m.pending[0] };
        let m1 = CoreModel {
            pending: m.pending.drop_first(),
            idle: m.idle.drop_first(),
            active: m.active.push((peer, request)),
            ..m
        };
        let (m2, rest) = spec_dispatch_loop(m1, stamp);
        (m2, seq![(peer, request)] + rest)
    } else {
        (m, Seq::empty())
    }
}

/// The dispatch step: without a link it does nothing; with one it runs the
/// pairing loop and reports the dispatched pairs in order.
pub open spec fn spec_dispatch(m: CoreModel, now: u64) -> (CoreModel, Seq<(PeerId, Request)>) {
    if !m.linked {
        (m, Seq::empty())
    } else {
        spec_dispatch_loop(m, spec_stamp(m, now))
    }
}

/// A peer connecting: it is admitted only if its role lets it serve, and the
/// dispatch step then consumes the new capacity.
pub open spec fn spec_on_connect(m: CoreModel, peer: PeerId, role: u8, now: u64) -> (
    CoreModel,
    Seq<(PeerId, Request)>,
) {
    if spec_role_serves(role) {
        spec_dispatch(spec_add_peer(m, peer), now)
    } else {
        (m, Seq::empty())
    }
}

/// A peer leaving or being thrown out: it is forgotten — an in-flight
/// request returns to the front of the pending queue — and the dispatch step
/// then redistributes the work.
pub open spec fn spec_evict(m: CoreModel, peer: PeerId, now: u64) -> (
    CoreModel,
    Seq<(PeerId, Request)>,
) {
    spec_dispatch(spec_remove_peer(m, peer), now)
}

/// A matched response that failed verification or had the wrong kind, taken
/// after the match (`spec_remove`) re-idled the peer: the peer is evicted,
/// the original request returns to the front of the pending queue, and the
/// dispatch step runs.
pub open spec fn spec_requeued(m1: CoreModel, peer: PeerId, request: Request, now: u64) -> (
    CoreModel,
    Seq<(PeerId, Request)>,
) {
    spec_dispatch(spec_requeue(spec_remove_peer(m1, peer), request), now)
}

/// What holds after a response envelope `(peer, id)` was handled, whatever
/// the proof checker decided. `kind_is_call` tells which response kind
/// arrived. If the envelope matched no active entry, the peer is evicted and
/// its request, if any, requeued — deterministically. If it matched a
/// request of the right kind, the checker decided between delivery (the peer
/// is back idle) and eviction with requeue; the contract holds for either
/// verdict. A matched request of the wrong kind is always eviction with
/// requeue. `evicted` names the peer the caller must disconnect, and `sent`
/// the messages the closing dispatch step produced.
pub open spec fn response_transition(
    m: CoreModel,
    peer: PeerId,
    id: u64,
    kind_is_call: bool,
    post: CoreModel,
    evicted: Option<PeerId>,
    sent: Seq<Dispatched>,
    now: u64,
) -> bool {
    let (m1, removed) = spec_remove(m, peer, id);
    match removed {
        None => {
            &&& evicted == Some(peer)
            &&& post == spec_evict(m, peer, now).0
            &&& dispatched_matches(sent, spec_evict(m, peer, now).1)
        },
        Some(request) => {
            let kind_matches = if kind_is_call {
                request.data is RemoteCall
            } else {
                request.data is RemoteRead
            };
            if kind_matches {
                ||| {
                    &&& evicted is None
                    &&& post == spec_dispatch(m1, now).0
                    &&& dispatched_matches(sent, spec_dispatch(m1, now).1)
                }
                ||| {
                    &&& evicted == Some(peer)
                    &&& post == spec_requeued(m1, peer, request, now).0
                    &&& dispatched_matches(sent, spec_requeued(m1, peer, request, now).1)
                }
            } else {
                &&& evicted == Some(peer)
                &&& post == spec_requeued(m1, peer, request, now).0
                &&& dispatched_matches(sent, spec_requeued(m1, peer, request, now).1)
            }
        },
    }
}

/// Admitting a peer preserves the invariant.
pub proof fn lemma_add_peer_wf(m: CoreModel, peer: PeerId)
    requires
        m.wf(),
    ensures
        spec_add_peer(m, peer).wf(),
{
    if !m.known_peer(peer) {
        let post = spec_add_peer(m, peer);
        assert(forall|i: int| 0 <= i < m.idle.len() ==> post.idle[i] == m.idle[i]);
        assert(forall|i: int|
            0 <= i < post.idle.len() ==> !has_key(post.active, #[trigger] post.idle[i]));
    }
}

/// Forgetting a peer preserves the invariant: its request, if any, returns
/// to the pending queue with its id still tracked exactly once.
pub proof fn lemma_remove_peer_wf(m: CoreModel, peer: PeerId)
    requires
        m.wf(),
    ensures
        spec_remove_peer(m, peer).wf(),
{
    let post = spec_remove_peer(m, peer);
    if has_key(m.active, peer) {
        let i = key_index(m.active, peer);
        assert(0 <= i < m.active.len() && m.active[i].0 == peer);
        m.active.remove_ensures(i);
        assert(post.peers_wf()) by {
            assert(forall|a: int|
                0 <= a < post.active.len() ==> #[trigger] post.active[a] == if a < i {
                    m.active[a]
                } else {
                    m.active[a + 1]
                });
        }
        assert(post.ids_wf()) by {
            assert(forall|a: int|
                0 <= a < post.active.len() ==> #[trigger] post.active[a] == if a < i {
                    m.active[a]
                } else {
                    m.active[a + 1]
                });
            assert(forall|a: int|
                0 <= a < post.pending.len() ==> #[trigger] post.pending[a] == if a == 0 {
                    m.active[i].1
                } else {
                    m.pending[a - 1]
                });
        }
        assert(post.active_sorted()) by {
            assert(forall|a: int|
                0 <= a < post.active.len() ==> #[trigger] post.active[a] == if a < i {
                    m.active[a]
                } else {
                    m.active[a + 1]
                });
        }
    } else if m.idle.contains(peer) {
        let k = idle_index(m.idle, peer);
        assert(0 <= k < m.idle.len() && m.idle[k] == peer);
        assert(post.peers_wf()) by {
            assert(forall|a: int|
                0 <= a < post.idle.len() ==> #[trigger] post.idle[a] == if a == k {
                    m.idle[m.idle.len() - 1]
                } else {
                    m.idle[a]
                });
        }
    }
}

/// Timeout eviction preserves the invariant; the evicted peers are exactly
/// the keys of the expired prefix of the active map, oldest first, and every
/// surviving tracked peer and request was tracked before.
pub proof fn lemma_maintain_wf(m: CoreModel, now: u64)
    requires
        m.wf(),
    ensures
        spec_maintain(m, now).0.wf(),
        spec_maintain(m, now).0.linked == m.linked,
        spec_maintain(m, now).0.next_request_id == m.next_request_id,
        spec_maintain(m, now).0.idle == m.idle,
        forall|i: int|
            0 <= i < spec_maintain(m, now).1.len() ==> #[trigger] spec_maintain(m, now).1[i]
                == m.active[i].0,
        spec_maintain(m, now).1.len() <= m.active.len(),
        spec_maintain(m, now).0.active == m.active.skip(spec_maintain(m, now).1.len() as int),
    decreases m.active.len(),
{
    let (post, bad) = spec_maintain(m, now);
    if m.active.len() > 0 && spec_expired(m.active[0].1.timestamp, now) {
        let m1 = CoreModel {
            active: m.active.drop_first(),
            pending: seq![m.active[0].1] + m.pending,
            ..m
        };
        assert(m1.wf()) by {
            assert(forall|a: int|
                0 <= a < m1.active.len() ==> #[trigger] m1.active[a] == m.active[a + 1]);
            assert(forall|a: int|
                0 <= a < m1.pending.len() ==> #[trigger] m1.pending[a] == if a == 0 {
                    m.active[0].1
                } else {
                    m.pending[a - 1]
                });
            assert(forall|i: int|
                0 <= i < m1.idle.len() ==> !has_key(m1.active, #[trigger] m1.idle[i])) by {
                assert(forall|i: int, a: int|
                    0 <= i < m1.idle.len() && 0 <= a < m1.active.len() && m1.active[a].0
                        == m1.idle[i] ==> has_key(m.active, m1.idle[i]));
            }
        }
        lemma_maintain_wf(m1, now);
        let (post1, bad1) = spec_maintain(m1, now);
        assert(post == post1 && bad == seq![m.active[0].0] + bad1);
        assert(forall|a: int|
            0 <= a < m1.active.len() ==> #[trigger] m1.active[a] == m.active[a + 1]);
        assert(bad1.len() <= m1.active.len() && m1.active.len() == m.active.len() - 1);
        assert forall|i: int| 0 <= i < bad.len() implies #[trigger] bad[i] == m.active[i].0 by {
            if i == 0 {
                assert(bad[0] == m.active[0].0);
            } else {
                assert(bad[i] == bad1[i - 1]);
                assert(bad1[i - 1] == m1.active[i - 1].0);
                assert(m1.active[i - 1] == m.active[i]);
            }
        }
        assert(post.active == m1.active.skip(bad1.len() as int));
        assert forall|a: int| 0 <= a < post.active.len() implies #[trigger] post.active[a]
            == m.active.skip(bad.len() as int)[a] by {
            assert(m1.active.skip(bad1.len() as int)[a] == m1.active[a + bad1.len()]);
            assert(post.active[a] == m1.active[a + bad1.len()]);
            assert(m1.active[a + bad1.len()] == m.active[a + bad.len()]);
            assert(m.active.skip(bad.len() as int)[a] == m.active[a + bad.len()]);
        }
        assert(post.active =~= m.active.skip(bad.len() as int));
    } else {
        assert(post.active =~= m.active.skip(0));
    }
}

/// Enqueueing a new request preserves the invariant: the fresh id is above
/// every tracked id.
pub proof fn lemma_insert_wf(m: CoreModel, data: RequestData, now: u64)
    requires
        m.wf(),
        m.next_request_id < u64::MAX,
    ensures
        spec_insert(m, data, now).wf(),
{
}

/// Accepting a matching response preserves the invariant; the request handed
/// out leaves the state entirely, so its id is no longer tracked.
pub proof fn lemma_remove_wf(m: CoreModel, peer: PeerId, id: u64)
    requires
        m.wf(),
    ensures
        spec_remove(m, peer, id).0.wf(),
        spec_remove(m, peer, id).1 matches Some(r) ==> {
            let post = spec_remove(m, peer, id).0;
            &&& r.id == id
            &&& r.id < post.next_request_id
            &&& !post.pending_has_id(r.id)
            &&& !post.active_has_id(r.id)
            &&& !has_key(post.active, peer)
        },
{
    let (post, removed) = spec_remove(m, peer, id);
    if has_key(m.active, peer) && m.active[key_index(m.active, peer)].1.id == id {
        let i = key_index(m.active, peer);
        assert(0 <= i < m.active.len() && m.active[i].0 == peer);
        m.active.remove_ensures(i);
        assert(forall|a: int|
            0 <= a < post.active.len() ==> #[trigger] post.active[a] == if a < i {
                m.active[a]
            } else {
                m.active[a + 1]
            });
        assert(post.peers_wf()) by {
            assert(forall|a: int| 0 <= a < m.idle.len() ==> post.idle[a] == m.idle[a]);
            assert(post.idle[m.idle.len() as int] == peer);
            assert(!m.idle.contains(peer));
        }
    }
}

/// Requeueing a request whose id is tracked nowhere preserves the invariant.
pub proof fn lemma_requeue_wf(m: CoreModel, request: Request)
    requires
        m.wf(),
        request.id < m.next_request_id,
        !m.pending_has_id(request.id),
        !m.active_has_id(request.id),
    ensures
        spec_requeue(m, request).wf(),
{
    let post = spec_requeue(m, request);
    assert(forall|a: int|
        0 <= a < post.pending.len() ==> #[trigger] post.pending[a] == if a == 0 {
            request
        } else {
            m.pending[a - 1]
        });
}

/// One pass of the pairing loop preserves the invariant, provided the stamp
/// is no older than the newest active entry.
pub proof fn lemma_dispatch_step_wf(m: CoreModel, stamp: u64)
    requires
        m.wf(),
        m.pending.len() > 0,
        m.idle.len() > 0,
        m.active.len() > 0 ==> m.active[m.active.len() - 1].1.timestamp <= stamp,
    ensures
        ({
            let m1 = CoreModel {
                pending: m.pending.drop_first(),
                idle: m.idle.drop_first(),
                active: m.active.push((m.idle[0], Request { timestamp: stamp, ..m.pending[0] })),
                ..m
            };
            m1.wf() && m1.active[m1.active.len() - 1].1.timestamp == stamp
        }),
{
    let peer = m.idle[0];
    let request = Request { timestamp: stamp, ..m.pending[0] };
    let m1 = CoreModel {
        pending: m.pending.drop_first(),
        idle: m.idle.drop_first(),
        active: m.active.push((peer, request)),
        ..m
    };
    assert(m1.wf()) by {
        assert(forall|a: int| 0 <= a < m1.idle.len() ==> #[trigger] m1.idle[a] == m.idle[a + 1]);
        assert(forall|a: int|
            0 <= a < m1.pending.len() ==> #[trigger] m1.pending[a] == m.pending[a + 1]);
        assert(forall|a: int| 0 <= a < m.active.len() ==> #[trigger] m1.active[a] == m.active[a]);
        assert(m1.active[m.active.len() as int] == (peer, request));
        assert(!has_key(m.active, peer));
        assert(forall|i: int|
            0 <= i < m1.idle.len() ==> !has_key(m1.active, #[trigger] m1.idle[i])) by {
            assert(forall|i: int, a: int|
                0 <= i < m1.idle.len() && 0 <= a < m.active.len() && m1.active[a].0 == m1.idle[i]
                    ==> has_key(m.active, m1.idle[i]));
        }
    }
}

/// The pairing loop preserves the invariant provided the stamp is no older
/// than the newest active entry, and it runs until the pending queue or the
/// idle sequence is exhausted.
pub proof fn lemma_dispatch_loop_wf(m: CoreModel, stamp: u64)
    requires
        m.wf(),
        m.active.len() > 0 ==> m.active[m.active.len() - 1].1.timestamp <= stamp,
    ensures
        spec_dispatch_loop(m, stamp).0.wf(),
        spec_dispatch_loop(m, stamp).0.pending.len() == 0 || spec_dispatch_loop(
            m,
            stamp,
        ).0.idle.len() == 0,
        spec_dispatch_loop(m, stamp).0.linked == m.linked,
        spec_dispatch_loop(m, stamp).0.next_request_id == m.next_request_id,
    decreases m.pending.len(),
{
    if m.pending.len() > 0 && m.idle.len() > 0 {
        let peer = m.idle[0];
        let request = Request { timestamp: stamp, ..m.pending[0] };
        let m1 = CoreModel {
            pending: m.pending.drop_first(),
            idle: m.idle.drop_first(),
            active: m.active.push((peer, request)),
            ..m
        };
        lemma_dispatch_step_wf(m, stamp);
        lemma_dispatch_loop_wf(m1, stamp);
    }
}

/// Under duplicate freedom, `idle_index` is the one position holding `p`.
pub proof fn lemma_idle_index(s: Seq<PeerId>, p: PeerId, i: int)
    requires
        forall|a: int, b: int| 0 <= a < b < s.len() ==> s[a] != s[b],
        0 <= i < s.len(),
        s[i] == p,
    ensures
        s.contains(p),
        idle_index(s, p) == i,
{
    assert(s.contains(p));
    let j = idle_index(s, p);
    if i < j {
        assert(s[i] != s[j]);
    } else if j < i {
        assert(s[j] != s[i]);
    }
}

/// The dispatch step preserves the invariant and, when a link is set, leaves
/// no pending request while a peer sits idle.
pub proof fn lemma_dispatch_wf(m: CoreModel, now: u64)
    requires
        m.wf(),
    ensures
        spec_dispatch(m, now).0.wf(),
        spec_dispatch(m, now).0.linked == m.linked,
        spec_dispatch(m, now).0.next_request_id == m.next_request_id,
        m.linked ==> spec_dispatch(m, now).0.pending.len() == 0 || spec_dispatch(
            m,
            now,
        ).0.idle.len() == 0,
{
    if m.linked {
        lemma_dispatch_loop_wf(m, spec_stamp(m, now));
    }
}

} // verus!
