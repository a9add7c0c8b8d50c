//! The cache of peers that have disconnected: a bounded table that forgets
//! the peer that was used least recently when it is full.

use crate::hash::MultihashView;
use crate::limit::PeerInfo;
use crate::peer_id::PeerId;
use lru::LruCache;
use vstd::prelude::*;

verus! {

/// `lru::LruCache`, as a type whose inside is not looked into: what a cache
/// holds is known by [`cache_entries`] and [`cache_capacity`] alone.
#[verifier::external_type_specification]
#[verifier::external_body]
#[verifier::reject_recursive_types(K)]
#[verifier::reject_recursive_types(V)]
#[verifier::reject_recursive_types(S)]
pub struct ExLruCache<K, V, S>(LruCache<K, V, S>);

/// What a cache holds: the peers and their records, the one used last first.
pub uninterp spec fn cache_entries(cache: LruCache<PeerId, PeerInfo>) -> Seq<
    (MultihashView, PeerInfo),
>;

/// The number of entries that a cache was made to hold.
pub uninterp spec fn cache_capacity(cache: LruCache<PeerId, PeerInfo>) -> nat;

/// The record of `peer` among `entries`: that of its first entry.
pub open spec fn lookup(entries: Seq<(MultihashView, PeerInfo)>, peer: MultihashView) -> Option<
    PeerInfo,
>
    decreases entries.len(),
{
    if entries.len() == 0 {
        None
    } else if entries[0].0 == peer {
        Some(entries[0].1)
    } else {
        lookup(entries.drop_first(), peer)
    }
}

/// `entries` without those of `peer`, in the same order.
pub open spec fn without(entries: Seq<(MultihashView, PeerInfo)>, peer: MultihashView) -> Seq<
    (MultihashView, PeerInfo),
>
    decreases entries.len(),
{
    if entries.len() == 0 {
        entries
    } else if entries[0].0 == peer {
        without(entries.drop_first(), peer)
    } else {
        seq![entries[0]] + without(entries.drop_first(), peer)
    }
}

/// `entries` after `peer` was used with the record `info`: it stands first.
pub open spec fn touched(
    entries: Seq<(MultihashView, PeerInfo)>,
    peer: MultihashView,
    info: PeerInfo,
) -> Seq<(MultihashView, PeerInfo)> {
    seq![(peer, info)] + without(entries, peer)
}

/// `entries` after `info` was stored for `peer` in a cache of `capacity`
/// entries. A peer that is there moves to the front with the new record. A
/// new peer is put in front; when the cache is full, the last entry, which
/// was used least recently, makes room for it.
pub open spec fn stored(
    entries: Seq<(MultihashView, PeerInfo)>,
    capacity: nat,
    peer: MultihashView,
    info: PeerInfo,
) -> Seq<(MultihashView, PeerInfo)> {
    if lookup(entries, peer) is Some {
        touched(entries, peer, info)
    } else if capacity == 0 {
        entries
    } else if entries.len() >= capacity {
        seq![(peer, info)] + entries.drop_last()
    } else {
        seq![(peer, info)] + entries
    }
}

/// What is left without a peer holds no record of it, and the records of
/// the other peers as before.
pub proof fn lemma_lookup_without(
    entries: Seq<(MultihashView, PeerInfo)>,
    peer: MultihashView,
    other: MultihashView,
)
    ensures
        lookup(without(entries, peer), other) == if other == peer {
            None
        } else {
            lookup(entries, other)
        },
        without(entries, peer).len() <= entries.len(),
    decreases entries.len(),
{
    if entries.len() > 0 {
        let rest = entries.drop_first();
        lemma_lookup_without(rest, peer, other);
        if entries[0].0 != peer {
            let kept = seq![entries[0]] + without(rest, peer);
            assert(kept.drop_first() == without(rest, peer));
        }
    }
}

/// A peer that is looked up behind a new first entry.
pub proof fn lemma_lookup_front(
    entries: Seq<(MultihashView, PeerInfo)>,
    peer: MultihashView,
    info: PeerInfo,
    other: MultihashView,
)
    ensures
        lookup(seq![(peer, info)] + entries, other) == if other == peer {
            Some(info)
        } else {
            lookup(entries, other)
        },
{
    let all = seq![(peer, info)] + entries;
    assert(all.drop_first() == entries);
}

/// Dropping the last entry adds no record and changes none: only the peer
/// of that entry can be lost.
pub proof fn lemma_lookup_drop_last(entries: Seq<(MultihashView, PeerInfo)>, other: MultihashView)
    requires
        entries.len() > 0,
    ensures
        lookup(entries.drop_last(), other) is Some ==> lookup(entries.drop_last(), other) == lookup(
            entries,
            other,
        ),
        other != entries.last().0 ==> lookup(entries.drop_last(), other) == lookup(entries, other),
    decreases entries.len(),
{
    if entries.len() == 1 {
        assert(entries.drop_last().len() == 0);
        assert(entries.drop_first().len() == 0);
    } else {
        let rest = entries.drop_first();
        assert(entries.drop_last().drop_first() == rest.drop_last());
        assert(rest.last() == entries.last());
        lemma_lookup_drop_last(rest, other);
    }
}

/// The records after storing one: that of `peer` is the new one unless the
/// cache holds nothing at all, every other record is one that was there.
pub proof fn lemma_lookup_stored(
    entries: Seq<(MultihashView, PeerInfo)>,
    capacity: nat,
    peer: MultihashView,
    info: PeerInfo,
    other: MultihashView,
)
    ensures
        capacity > 0 ==> lookup(stored(entries, capacity, peer, info), peer) == Some(info),
        other != peer && lookup(stored(entries, capacity, peer, info), other) is Some ==> lookup(
            stored(entries, capacity, peer, info),
            other,
        ) == lookup(entries, other),
        entries.len() <= capacity ==> stored(entries, capacity, peer, info).len() <= capacity,
{
    if lookup(entries, peer) is Some {
        lemma_lookup_without(entries, peer, other);
        lemma_lookup_without(entries, peer, peer);
        lemma_lookup_front(without(entries, peer), peer, info, other);
        lemma_lookup_front(without(entries, peer), peer, info, peer);
        lemma_without_shorter(entries, peer);
    } else if capacity == 0 {
    } else if entries.len() >= capacity {
        lemma_lookup_drop_last(entries, other);
        lemma_lookup_front(entries.drop_last(), peer, info, other);
        lemma_lookup_front(entries.drop_last(), peer, info, peer);
    } else {
        lemma_lookup_front(entries, peer, info, other);
        lemma_lookup_front(entries, peer, info, peer);
    }
}

/// Taking out a peer that has no record changes nothing.
pub proof fn lemma_without_absent(entries: Seq<(MultihashView, PeerInfo)>, peer: MultihashView)
    requires
        lookup(entries, peer) is None,
    ensures
        without(entries, peer) == entries,
    decreases entries.len(),
{
    if entries.len() > 0 {
        lemma_without_absent(entries.drop_first(), peer);
        assert(seq![entries[0]] + entries.drop_first() == entries);
    }
}

/// Taking out a peer that has a record makes the entries fewer.
pub proof fn lemma_without_shorter(entries: Seq<(MultihashView, PeerInfo)>, peer: MultihashView)
    requires
        lookup(entries, peer) is Some,
    ensures
        without(entries, peer).len() < entries.len(),
    decreases entries.len(),
{
    let rest = entries.drop_first();
    if entries[0].0 == peer {
        lemma_lookup_without(rest, peer, peer);
    } else {
        lemma_without_shorter(rest, peer);
    }
}

/// `LruCache::new`: an empty cache for `capacity` entries. The bound keeps
/// the table that the crate allocates at once within what can be asked for.
#[verifier::external_body]
pub(crate) fn cache_new(capacity: usize) -> (cache: LruCache<PeerId, PeerInfo>)
    requires
        capacity <= 0x10_0000,
    ensures
        cache_entries(cache) == Seq::<(MultihashView, PeerInfo)>::empty(),
        cache_capacity(cache) == capacity,
{
    LruCache::new(capacity)
}

/// `LruCache::pop`: takes the entry of `peer` out and returns its record,
/// `None` where the peer has none. The other entries keep their order.
/// Peers are found by `PeerId`'s `Hash` and `Eq`, which go by the hash that
/// the id stands for.
#[verifier::external_body]
pub(crate) fn cache_pop(cache: &mut LruCache<PeerId, PeerInfo>, peer: &PeerId) -> (info: Option<
    PeerInfo,
>)
    ensures
        info == lookup(cache_entries(*old(cache)), peer@),
        cache_entries(*final(cache)) == without(cache_entries(*old(cache)), peer@),
        cache_capacity(*final(cache)) == cache_capacity(*old(cache)),
{
    cache.pop(peer)
}

/// `LruCache::put`: stores `info` for `peer` and returns the record that the
/// peer had. The peer then stands first. A peer that was not there is put
/// in a cache that is full only after the entry used least recently has
/// left; a cache of capacity zero takes nothing.
#[verifier::external_body]
pub(crate) fn cache_put(cache: &mut LruCache<PeerId, PeerInfo>, peer: PeerId, info: PeerInfo) -> (before:
    Option<PeerInfo>)
    ensures
        before == lookup(cache_entries(*old(cache)), peer@),
        cache_entries(*final(cache)) == stored(
            cache_entries(*old(cache)),
            cache_capacity(*old(cache)),
            peer@,
            info,
        ),
        cache_capacity(*final(cache)) == cache_capacity(*old(cache)),
{
    cache.put(peer, info)
}

/// `LruCache::get_mut`: the record of `peer`, to be changed in place, `None`
/// where the peer has none. A peer that is found moves to the front; the
/// other entries keep their order.
#[verifier::external_body]
pub(crate) fn cache_get_mut<'a>(cache: &'a mut LruCache<PeerId, PeerInfo>, peer: &PeerId) -> (info:
    Option<&'a mut PeerInfo>)
    ensures
        match info {
            Some(record) => lookup(cache_entries(*old(cache)), peer@) == Some(*record)
                && cache_entries(*final(cache)) == touched(
                cache_entries(*old(cache)),
                peer@,
                *final(record),
            ),
            None => lookup(cache_entries(*old(cache)), peer@) is None && cache_entries(
                *final(cache),
            ) == cache_entries(*old(cache)),
        },
        cache_capacity(*final(cache)) == cache_capacity(*old(cache)),
{
    cache.get_mut(peer)
}

} // verus!
