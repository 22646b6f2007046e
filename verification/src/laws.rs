//! The dispatcher's laws: properties that hold of every reachable state and
//! every transition, stated as public proof functions over the abstract
//! model. Every public operation establishes or preserves [`CoreModel::wf`],
//! so what these lemmas derive from `wf` holds after any operation returns.

use vstd::prelude::*;
use crate::active::{has_key, key_index};
use crate::model::{
    spec_add_peer, spec_dispatch, spec_dispatch_loop, spec_insert, spec_maintain, spec_remove, spec_remove_peer,
    spec_requeue, spec_requeued, spec_stamp, idle_index, CoreModel,
};
use crate::request::{Request, RequestData};
use crate::types::PeerId;

verus! {

/// Every tracked peer is in exactly one place: never both idle and active,
/// and in the idle sequence at most once. A peer in neither is simply
/// absent.
pub proof fn lemma_peer_idle_xor_active(m: CoreModel, p: PeerId)
    requires
        m.wf(),
    ensures
        !(m.idle.contains(p) && has_key(m.active, p)),
        forall|i: int, j: int|
            0 <= i < j < m.idle.len() ==> !(m.idle[i] == p && m.idle[j] == p),
{
}

/// Every tracked request id is in exactly one place: the pending queue and
/// the active map share no id, and neither holds an id twice. An id in
/// neither was delivered or never emitted.
pub proof fn lemma_request_pending_xor_active(m: CoreModel, id: u64)
    requires
        m.wf(),
    ensures
        !(m.pending_has_id(id) && m.active_has_id(id)),
        forall|i: int, j: int|
            0 <= i < j < m.pending.len() ==> !(m.pending[i].id == id && m.pending[j].id == id),
        forall|i: int, j: int|
            0 <= i < j < m.active.len() ==> !(m.active[i].1.id == id && m.active[j].1.id == id),
{
}

/// Request ids are emitted strictly increasingly: a submission takes the
/// counter's value as its id, every id tracked before lies strictly below
/// it, and the counter then moves past it — so no later submission can ever
/// emit an equal or smaller id, and ids never repeat.
pub proof fn lemma_request_ids_strictly_increase(m: CoreModel, data: RequestData, now: u64)
    requires
        m.wf(),
        m.next_request_id < u64::MAX,
    ensures
        ({
            let post = spec_insert(m, data, now);
            &&& post.pending.last().id == m.next_request_id
            &&& forall|i: int|
                0 <= i < m.pending.len() ==> (#[trigger] m.pending[i].id) < m.next_request_id
            &&& forall|i: int|
                0 <= i < m.active.len() ==> (#[trigger] m.active[i].1.id) < m.next_request_id
            &&& post.next_request_id == m.next_request_id + 1
        }),
{
}

/// The id counter never moves backwards: submission advances it by one and
/// every other transition leaves it alone. Together with
/// [`lemma_request_ids_strictly_increase`], the ids a dispatcher emits over
/// its whole life form a strictly increasing sequence.
pub proof fn lemma_counter_never_decreases(
    m: CoreModel,
    peer: PeerId,
    id: u64,
    data: RequestData,
    request: Request,
    now: u64,
)
    requires
        m.wf(),
        m.next_request_id < u64::MAX,
    ensures
        spec_add_peer(m, peer).next_request_id == m.next_request_id,
        spec_remove_peer(m, peer).next_request_id == m.next_request_id,
        spec_maintain(m, now).0.next_request_id == m.next_request_id,
        spec_remove(m, peer, id).0.next_request_id == m.next_request_id,
        spec_requeue(m, request).next_request_id == m.next_request_id,
        spec_dispatch(m, now).0.next_request_id == m.next_request_id,
        spec_insert(m, data, now).next_request_id == m.next_request_id + 1,
{
    crate::model::lemma_maintain_wf(m, now);
    crate::model::lemma_dispatch_wf(m, now);
}

/// Walking the active map from its front yields dispatch timestamps in
/// non-decreasing order: the front entry is always the oldest outstanding
/// dispatch.
pub proof fn lemma_active_timestamps_sorted(m: CoreModel, i: int, j: int)
    requires
        m.wf(),
        0 <= i <= j < m.active.len(),
    ensures
        m.active[i].1.timestamp <= m.active[j].1.timestamp,
{
}

/// True when the dispatcher tracks a request with this id and payload,
/// pending or active.
pub open spec fn tracks_payload(m: CoreModel, id: u64, data: RequestData) -> bool {
    ||| exists|i: int|
        0 <= i < m.pending.len() && (#[trigger] m.pending[i]).id == id && m.pending[i].data == data
    ||| exists|i: int|
        0 <= i < m.active.len() && (#[trigger] m.active[i]).1.id == id && m.active[i].1.data
            == data
}

/// Forgetting a peer keeps every tracked request's id and payload tracked:
/// an in-flight request moves back to the pending queue unchanged.
pub proof fn lemma_remove_peer_keeps_payload(m: CoreModel, peer: PeerId, id: u64, data: RequestData)
    requires
        m.wf(),
    ensures
        tracks_payload(spec_remove_peer(m, peer), id, data) == tracks_payload(m, id, data),
{
    let post = spec_remove_peer(m, peer);
    if has_key(m.active, peer) {
        let k = key_index(m.active, peer);
        assert(0 <= k < m.active.len() && m.active[k].0 == peer);
        m.active.remove_ensures(k);
        assert(forall|a: int|
            0 <= a < post.pending.len() ==> #[trigger] post.pending[a] == if a == 0 {
                m.active[k].1
            } else {
                m.pending[a - 1]
            });
        if tracks_payload(m, id, data) {
            if exists|i: int|
                0 <= i < m.active.len() && (#[trigger] m.active[i]).1.id == id
                    && m.active[i].1.data == data {
                let i = choose|i: int|
                    0 <= i < m.active.len() && (#[trigger] m.active[i]).1.id == id
                        && m.active[i].1.data == data;
                if i == k {
                    assert(post.pending[0] == m.active[k].1);
                } else if i < k {
                    assert(post.active[i] == m.active[i]);
                } else {
                    assert(post.active[i - 1] == m.active[i]);
                }
            } else {
                let i = choose|i: int|
                    0 <= i < m.pending.len() && (#[trigger] m.pending[i]).id == id
                        && m.pending[i].data == data;
                assert(post.pending[i + 1] == m.pending[i]);
            }
        }
        if tracks_payload(post, id, data) {
            if exists|i: int|
                0 <= i < post.active.len() && (#[trigger] post.active[i]).1.id == id
                    && post.active[i].1.data == data {
                let i = choose|i: int|
                    0 <= i < post.active.len() && (#[trigger] post.active[i]).1.id == id
                        && post.active[i].1.data == data;
                if i < k {
                    assert(m.active[i] == post.active[i]);
                } else {
                    assert(m.active[i + 1] == post.active[i]);
                }
            } else {
                let i = choose|i: int|
                    0 <= i < post.pending.len() && (#[trigger] post.pending[i]).id == id
                        && post.pending[i].data == data;
                if i == 0 {
                    assert(m.active[k].1 == post.pending[0]);
                } else {
                    assert(m.pending[i - 1] == post.pending[i]);
                }
            }
        }
    }
}

/// Requeueing keeps every tracked request tracked and adds the requeued one:
/// the request returns with its id and payload unchanged.
pub proof fn lemma_requeue_keeps_payload(
    m: CoreModel,
    request: Request,
    id: u64,
    data: RequestData,
)
    ensures
        tracks_payload(spec_requeue(m, request), request.id, request.data),
        tracks_payload(m, id, data) ==> tracks_payload(spec_requeue(m, request), id, data),
{
    let post = spec_requeue(m, request);
    assert(post.pending[0] == request);
    assert(forall|a: int|
        0 <= a < m.pending.len() ==> #[trigger] post.pending[a + 1] == m.pending[a]);
    if tracks_payload(m, id, data) {
        if exists|i: int|
            0 <= i < m.pending.len() && (#[trigger] m.pending[i]).id == id && m.pending[i].data
                == data {
            let i = choose|i: int|
                0 <= i < m.pending.len() && (#[trigger] m.pending[i]).id == id && m.pending[i].data
                    == data;
            assert(post.pending[i + 1] == m.pending[i]);
        }
    }
}

/// One pairing pass keeps every tracked request's id and payload: dispatch
/// re-stamps a request's timestamp but never touches its id or payload.
proof fn lemma_dispatch_loop_keeps_payload(m: CoreModel, stamp: u64, id: u64, data: RequestData)
    ensures
        tracks_payload(spec_dispatch_loop(m, stamp).0, id, data) == tracks_payload(m, id, data),
    decreases m.pending.len(),
{
    if m.pending.len() > 0 && m.idle.len() > 0 {
        let peer = m.idle[0];
        let request = Request { timestamp: stamp, ..m.pending[0] };
        let m1 = CoreModel {
            pending: m.pending.drop_first(),
            idle: m.idle.drop_first(),
            active: m.active.push((peer, request)),
            ..m
        };
        lemma_dispatch_loop_keeps_payload(m1, stamp, id, data);
        assert(forall|a: int|
            0 <= a < m1.pending.len() ==> #[trigger] m1.pending[a] == m.pending[a + 1]);
        assert(forall|a: int|
            0 <= a < m.active.len() ==> #[trigger] m1.active[a] == m.active[a]);
        assert(m1.active[m.active.len() as int] == (peer, request));
        if tracks_payload(m, id, data) {
            if exists|i: int|
                0 <= i < m.pending.len() && (#[trigger] m.pending[i]).id == id && m.pending[i].data
                    == data {
                let i = choose|i: int|
                    0 <= i < m.pending.len() && (#[trigger] m.pending[i]).id == id
                        && m.pending[i].data == data;
                if i == 0 {
                    assert(m1.active[m.active.len() as int].1.id == id);
                    assert(m1.active[m.active.len() as int].1.data == data);
                } else {
                    assert(m1.pending[i - 1] == m.pending[i]);
                }
            } else {
                let i = choose|i: int|
                    0 <= i < m.active.len() && (#[trigger] m.active[i]).1.id == id
                        && m.active[i].1.data == data;
                assert(m1.active[i] == m.active[i]);
            }
            assert(tracks_payload(m1, id, data));
        }
        if tracks_payload(m1, id, data) {
            if exists|i: int|
                0 <= i < m1.pending.len() && (#[trigger] m1.pending[i]).id == id
                    && m1.pending[i].data == data {
                let i = choose|i: int|
                    0 <= i < m1.pending.len() && (#[trigger] m1.pending[i]).id == id
                        && m1.pending[i].data == data;
                assert(m.pending[i + 1] == m1.pending[i]);
            } else {
                let i = choose|i: int|
                    0 <= i < m1.active.len() && (#[trigger] m1.active[i]).1.id == id
                        && m1.active[i].1.data == data;
                if i < m.active.len() {
                    assert(m.active[i] == m1.active[i]);
                } else {
                    assert(m1.active[i].1.id == m.pending[0].id);
                    assert(m1.active[i].1.data == m.pending[0].data);
                }
            }
            assert(tracks_payload(m, id, data));
        }
    }
}

/// The dispatch step keeps every tracked request's id and payload.
pub proof fn lemma_dispatch_keeps_payload(m: CoreModel, now: u64, id: u64, data: RequestData)
    ensures
        tracks_payload(spec_dispatch(m, now).0, id, data) == tracks_payload(m, id, data),
{
    if m.linked {
        lemma_dispatch_loop_keeps_payload(m, spec_stamp(m, now), id, data);
    }
}

/// Timeout eviction keeps every tracked request's id and payload: evicted
/// peers' requests move back to the pending queue unchanged.
pub proof fn lemma_maintain_keeps_payload(m: CoreModel, now: u64, id: u64, data: RequestData)
    ensures
        tracks_payload(spec_maintain(m, now).0, id, data) == tracks_payload(m, id, data),
    decreases m.active.len(),
{
    if m.active.len() > 0 && crate::model::spec_expired(m.active[0].1.timestamp, now) {
        let m1 = CoreModel {
            active: m.active.drop_first(),
            pending: seq![m.active[0].1] + m.pending,
            ..m
        };
        lemma_maintain_keeps_payload(m1, now, id, data);
        assert(forall|a: int|
            0 <= a < m1.active.len() ==> #[trigger] m1.active[a] == m.active[a + 1]);
        assert(forall|a: int|
            0 <= a < m1.pending.len() ==> #[trigger] m1.pending[a] == if a == 0 {
                m.active[0].1
            } else {
                m.pending[a - 1]
            });
        if tracks_payload(m, id, data) {
            if exists|i: int|
                0 <= i < m.pending.len() && (#[trigger] m.pending[i]).id == id && m.pending[i].data
                    == data {
                let i = choose|i: int|
                    0 <= i < m.pending.len() && (#[trigger] m.pending[i]).id == id
                        && m.pending[i].data == data;
                assert(m1.pending[i + 1] == m.pending[i]);
            } else {
                let i = choose|i: int|
                    0 <= i < m.active.len() && (#[trigger] m.active[i]).1.id == id
                        && m.active[i].1.data == data;
                if i == 0 {
                    assert(m1.pending[0] == m.active[0].1);
                } else {
                    assert(m1.active[i - 1] == m.active[i]);
                }
            }
            assert(tracks_payload(m1, id, data));
        }
        if tracks_payload(m1, id, data) {
            if exists|i: int|
                0 <= i < m1.pending.len() && (#[trigger] m1.pending[i]).id == id
                    && m1.pending[i].data == data {
                let i = choose|i: int|
                    0 <= i < m1.pending.len() && (#[trigger] m1.pending[i]).id == id
                        && m1.pending[i].data == data;
                if i == 0 {
                    assert(m.active[0].1.id == id && m.active[0].1.data == data);
                } else {
                    assert(m.pending[i - 1] == m1.pending[i]);
                }
            } else {
                let i = choose|i: int|
                    0 <= i < m1.active.len() && (#[trigger] m1.active[i]).1.id == id
                        && m1.active[i].1.data == data;
                assert(m.active[i + 1] == m1.active[i]);
            }
            assert(tracks_payload(m, id, data));
        }
    }
}

/// Requeue-on-failure idempotence. A request requeued over a misbehaving
/// peer — and so any number of times — keeps its id and payload tracked
/// verbatim; and when a response for its id is finally accepted, the request
/// handed to the verifier carries exactly that payload. The payload a
/// consumer eventually receives is therefore verified against the same
/// request, however many retries it took.
pub proof fn lemma_requeue_idempotent(
    m1: CoreModel,
    peer: PeerId,
    request: Request,
    now: u64,
    id: u64,
    data: RequestData,
)
    requires
        m1.wf(),
    ensures
        tracks_payload(spec_requeued(m1, peer, request, now).0, request.id, request.data),
        tracks_payload(m1, id, data) ==> tracks_payload(
            spec_requeued(m1, peer, request, now).0,
            id,
            data,
        ),
{
    let m2 = spec_remove_peer(m1, peer);
    let m3 = spec_requeue(m2, request);
    lemma_remove_peer_keeps_payload(m1, peer, id, data);
    lemma_requeue_keeps_payload(m2, request, id, data);
    lemma_dispatch_keeps_payload(m3, now, id, data);
    lemma_dispatch_keeps_payload(m3, now, request.id, request.data);
}

/// When a response for `id` is accepted, the request handed out for
/// verification carries exactly the payload tracked under that id: retries
/// never substitute another request's payload.
pub proof fn lemma_delivery_matches_submission(
    m: CoreModel,
    peer: PeerId,
    id: u64,
    data: RequestData,
)
    requires
        m.wf(),
        tracks_payload(m, id, data),
    ensures
        spec_remove(m, peer, id).1 matches Some(request) ==> request.id == id && request.data
            == data,
{
    if has_key(m.active, peer) && m.active[key_index(m.active, peer)].1.id == id {
        let k = key_index(m.active, peer);
        if exists|i: int|
            0 <= i < m.pending.len() && (#[trigger] m.pending[i]).id == id && m.pending[i].data
                == data {
            let i = choose|i: int|
                0 <= i < m.pending.len() && (#[trigger] m.pending[i]).id == id && m.pending[i].data
                    == data;
            assert(m.pending[i].id != m.active[k].1.id);
        } else {
            let i = choose|i: int|
                0 <= i < m.active.len() && (#[trigger] m.active[i]).1.id == id
                    && m.active[i].1.data == data;
            if i != k {
                assert(m.active[i].1.id != m.active[k].1.id);
            }
        }
    }
}

/// No peer is charged for another peer's misbehavior: forgetting `peer` —
/// on disconnect, on eviction — leaves every other peer exactly where it
/// was, idle or active.
pub proof fn lemma_eviction_touches_only_peer(m: CoreModel, peer: PeerId, q: PeerId)
    requires
        m.wf(),
        q != peer,
    ensures
        spec_remove_peer(m, peer).idle.contains(q) == m.idle.contains(q),
        has_key(spec_remove_peer(m, peer).active, q) == has_key(m.active, q),
{
    let post = spec_remove_peer(m, peer);
    if has_key(m.active, peer) {
        let k = key_index(m.active, peer);
        assert(0 <= k < m.active.len() && m.active[k].0 == peer);
        m.active.remove_ensures(k);
        assert(forall|a: int|
            0 <= a < post.active.len() ==> #[trigger] post.active[a] == if a < k {
                m.active[a]
            } else {
                m.active[a + 1]
            });
        if has_key(m.active, q) {
            let i = key_index(m.active, q);
            assert(0 <= i < m.active.len() && m.active[i].0 == q);
            if i < k {
                assert(post.active[i].0 == q);
            } else {
                assert(i != k);
                assert(post.active[i - 1].0 == q);
            }
        }
    } else if m.idle.contains(peer) {
        let k = idle_index(m.idle, peer);
        assert(0 <= k < m.idle.len() && m.idle[k] == peer);
        assert(forall|a: int|
            0 <= a < post.idle.len() ==> #[trigger] post.idle[a] == if a == k {
                m.idle[m.idle.len() - 1]
            } else {
                m.idle[a]
            });
        if m.idle.contains(q) {
            let i = choose|i: int| 0 <= i < m.idle.len() && m.idle[i] == q;
            if i == k {
                assert(m.idle[i] == peer);
            } else if i == m.idle.len() - 1 {
                assert(k < m.idle.len() - 1);
                assert(post.idle[k] == q);
            } else {
                assert(post.idle[i] == q);
            }
        }
        if post.idle.contains(q) {
            let i = choose|i: int| 0 <= i < post.idle.len() && post.idle[i] == q;
            if i == k {
                assert(m.idle[m.idle.len() - 1] == q);
            } else {
                assert(m.idle[i] == q);
            }
        }
    }
}

/// Timeout eviction charges exactly the peers it reports: every peer it did
/// not return keeps its place, idle or active.
pub proof fn lemma_maintain_touches_only_reported(m: CoreModel, now: u64, q: PeerId)
    requires
        m.wf(),
        !spec_maintain(m, now).1.contains(q),
    ensures
        spec_maintain(m, now).0.idle.contains(q) == m.idle.contains(q),
        has_key(spec_maintain(m, now).0.active, q) == has_key(m.active, q),
    decreases m.active.len(),
{
    let (post, bad) = spec_maintain(m, now);
    if m.active.len() > 0 && crate::model::spec_expired(m.active[0].1.timestamp, now) {
        let m1 = CoreModel {
            active: m.active.drop_first(),
            pending: seq![m.active[0].1] + m.pending,
            ..m
        };
        assert(m1.wf()) by {
            crate::model::lemma_maintain_wf(m, now);
            assert(forall|a: int|
                0 <= a < m1.active.len() ==> #[trigger] m1.active[a] == m.active[a + 1]);
            assert(forall|a: int|
                0 <= a < m1.pending.len() ==> #[trigger] m1.pending[a] == if a == 0 {
                    m.active[0].1
                } else {
                    m.pending[a - 1]
                });
            assert(forall|i: int|
                0 <= i < m1.idle.len() ==> !has_key(m1.active, #[trigger] m1.idle[i])) by {
                assert(forall|i: int, a: int|
                    0 <= i < m1.idle.len() && 0 <= a < m1.active.len() && m1.active[a].0
                        == m1.idle[i] ==> has_key(m.active, m1.idle[i]));
            }
        }
        let (post1, bad1) = spec_maintain(m1, now);
        assert(bad == seq![m.active[0].0] + bad1);
        assert(bad[0] == m.active[0].0);
        assert(forall|i: int| 0 <= i < bad1.len() ==> #[trigger] bad1[i] == bad[i + 1]);
        assert(!bad1.contains(q)) by {
            if bad1.contains(q) {
                let i = choose|i: int| 0 <= i < bad1.len() && bad1[i] == q;
                assert(bad[i + 1] == q);
            }
        }
        lemma_maintain_touches_only_reported(m1, now, q);
        assert(forall|a: int|
            0 <= a < m1.active.len() ==> #[trigger] m1.active[a] == m.active[a + 1]);
        assert(has_key(m1.active, q) == has_key(m.active, q)) by {
            assert(m.active[0].0 == bad[0]);
            assert(q != m.active[0].0);
            if has_key(m.active, q) {
                let i = key_index(m.active, q);
                assert(0 <= i < m.active.len() && m.active[i].0 == q);
                assert(i != 0);
                assert(m1.active[i - 1].0 == q);
            }
            if has_key(m1.active, q) {
                let i = choose|i: int| 0 <= i < m1.active.len() && m1.active[i].0 == q;
                assert(m.active[i + 1].0 == q);
            }
        }
    }
}

} // verus!

