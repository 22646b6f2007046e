//! Trusted boundary to the insertion-ordered map of actively serving peers.
//!
//! The active map binds each serving peer to the request that is out to it.
//! It must keep insertion order (the front entry is the oldest dispatch, so
//! timeout eviction stops at the first fresh entry) while removing by key in
//! one step. That is exactly what `linked_hash_map::LinkedHashMap` offers;
//! its contents are named by the abstract sequence [`active_entries`], and
//! every method the dispatcher calls is specified against that sequence.

use vstd::prelude::*;
use linked_hash_map::LinkedHashMap;
use crate::request::Request;
use crate::types::PeerId;

verus! {

#[verifier::external_type_specification]
#[verifier::external_body]
#[verifier::reject_recursive_types(K)]
#[verifier::reject_recursive_types(V)]
#[verifier::reject_recursive_types(S)]
pub struct ExLinkedHashMap<K, V, S>(LinkedHashMap<K, V, S>);

/// The entries of an active map, oldest first: the peer each entry is keyed
/// by, paired with the request out to that peer.
pub uninterp spec fn active_entries(m: LinkedHashMap<PeerId, Request>) -> Seq<(PeerId, Request)>;

/// The keys of an entry sequence, in entry order.
pub open spec fn entry_keys(s: Seq<(PeerId, Request)>) -> Seq<PeerId> {
    s.map_values(|e: (PeerId, Request)| e.0)
}

/// True when some entry of `s` is keyed by `k`.
pub open spec fn has_key(s: Seq<(PeerId, Request)>, k: PeerId) -> bool {
    exists|i: int| 0 <= i < s.len() && s[i].0 == k
}

/// The position of the entry keyed by `k`; meaningful only under `has_key`
/// and distinct keys.
pub open spec fn key_index(s: Seq<(PeerId, Request)>, k: PeerId) -> int {
    choose|i: int| 0 <= i < s.len() && s[i].0 == k
}

/// True when no two entries of `s` share a key.
pub open spec fn distinct_keys(s: Seq<(PeerId, Request)>) -> bool {
    forall|i: int, j: int| 0 <= i < j < s.len() ==> s[i].0 != s[j].0
}

/// Relies on LinkedHashMap::new: the fresh map has no entries.
#[verifier::external_body]
pub(crate) fn active_new() -> (m: LinkedHashMap<PeerId, Request>)
    ensures
        active_entries(m) == Seq::<(PeerId, Request)>::empty(),
{
    LinkedHashMap::new()
}

/// Relies on LinkedHashMap::insert: a key not yet present is attached at the
/// back of the iteration order, existing entries untouched.
#[verifier::external_body]
pub(crate) fn active_insert(m: &mut LinkedHashMap<PeerId, Request>, peer: PeerId, request: Request)
    requires
        !has_key(active_entries(*old(m)), peer),
    ensures
        active_entries(*final(m)) == active_entries(*old(m)).push((peer, request)),
{
    m.insert(peer, request);
}

/// Relies on LinkedHashMap::contains_key: whether an entry is keyed by the
/// given peer.
#[verifier::external_body]
pub(crate) fn active_contains(m: &LinkedHashMap<PeerId, Request>, peer: PeerId) -> (r: bool)
    ensures
        r == has_key(active_entries(*m), peer),
{
    m.contains_key(&peer)
}

/// Relies on LinkedHashMap::get: returns the value stored under the key, or
/// nothing when the key is absent. Here only the stored request's id is
/// handed out.
#[verifier::external_body]
pub(crate) fn active_get_id(m: &LinkedHashMap<PeerId, Request>, peer: PeerId) -> (r: Option<u64>)
    requires
        distinct_keys(active_entries(*m)),
    ensures
        match r {
            Some(id) => has_key(active_entries(*m), peer)
                && active_entries(*m)[key_index(active_entries(*m), peer)].1.id == id,
            None => !has_key(active_entries(*m), peer),
        },
{
    m.get(&peer).map(|request| request.id)
}

/// Relies on LinkedHashMap::remove: detaches the entry under the key, the
/// order of the remaining entries kept; returns nothing when the key is
/// absent.
#[verifier::external_body]
pub(crate) fn active_remove(m: &mut LinkedHashMap<PeerId, Request>, peer: PeerId) -> (r: Option<
    Request,
>)
    requires
        distinct_keys(active_entries(*old(m))),
    ensures
        has_key(active_entries(*old(m)), peer) ==> {
            let s = active_entries(*old(m));
            let i = key_index(s, peer);
            r == Some(s[i].1) && active_entries(*final(m)) == s.remove(i)
        },
        !has_key(active_entries(*old(m)), peer) ==> r is None && active_entries(*final(m))
            == active_entries(*old(m)),
{
    m.remove(&peer)
}

/// Relies on LinkedHashMap::front: the oldest entry, read without detaching
/// it. Here only its timestamp is handed out.
#[verifier::external_body]
pub(crate) fn active_front_timestamp(m: &LinkedHashMap<PeerId, Request>) -> (r: Option<u64>)
    ensures
        match r {
            Some(t) => active_entries(*m).len() > 0 && t == active_entries(*m)[0].1.timestamp,
            None => active_entries(*m).len() == 0,
        },
{
    m.front().map(|entry| entry.1.timestamp)
}

/// Relies on LinkedHashMap::back: the newest entry, read without detaching
/// it. Here only its timestamp is handed out.
#[verifier::external_body]
pub(crate) fn active_back_timestamp(m: &LinkedHashMap<PeerId, Request>) -> (r: Option<u64>)
    ensures
        match r {
            Some(t) => active_entries(*m).len() > 0 && t == active_entries(*m)[active_entries(
                *m,
            ).len() - 1].1.timestamp,
            None => active_entries(*m).len() == 0,
        },
{
    m.back().map(|entry| entry.1.timestamp)
}

/// Relies on LinkedHashMap::pop_front: detaches and returns the oldest
/// entry, or nothing from an empty map.
#[verifier::external_body]
pub(crate) fn active_pop_front(m: &mut LinkedHashMap<PeerId, Request>) -> (r: Option<
    (PeerId, Request),
>)
    ensures
        active_entries(*old(m)).len() > 0 ==> r == Some(active_entries(*old(m))[0])
            && active_entries(*final(m)) == active_entries(*old(m)).drop_first(),
        active_entries(*old(m)).len() == 0 ==> r is None && active_entries(*final(m))
            == active_entries(*old(m)),
{
    m.pop_front()
}

/// Relies on LinkedHashMap::keys: iterates the keys in entry order, oldest
/// first.
#[verifier::external_body]
pub(crate) fn active_keys(m: &LinkedHashMap<PeerId, Request>) -> (r: Vec<PeerId>)
    ensures
        r@ == entry_keys(active_entries(*m)),
{
    m.keys().cloned().collect()
}

} // verus!
