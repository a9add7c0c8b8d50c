//! Every call and every message leaves a valid state valid.

use crate::credit::RequestId;
use crate::hash::MultihashView;
use crate::message::Header;
use crate::model::{State, OFFLINE_PEERS};
use crate::limit::{Limit, PeerInfo};
use crate::offline::{
    lemma_lookup_front, lemma_lookup_stored, lemma_lookup_without, lemma_without_shorter, lookup,
    without,
};
use vstd::prelude::*;

verus! {

/// A grant to a connected peer keeps the state valid.
pub proof fn lemma_grant_valid(s: State, peer: MultihashView, amount: u16)
    requires
        s.valid(),
        s.can_grant(),
        s.peers.contains_key(peer),
    ensures
        s.grant(peer, amount).valid(),
{
}

/// A peer that comes to be known as connected is connected afterwards, and
/// the state stays valid.
pub proof fn lemma_locate_valid(s: State, peer: MultihashView)
    requires
        s.valid(),
        s.can_grant(),
    ensures
        s.locate(peer).valid(),
        s.locate(peer).peers.contains_key(peer),
{
    if !s.peers.contains_key(peer) {
        match lookup(s.offline, peer) {
            Some(info) => {
                let back = State {
                    peers: s.peers.insert(peer, info),
                    offline: without(s.offline, peer),
                    ..s
                };
                assert forall|other: MultihashView|
                    (#[trigger] lookup(back.offline, other)) is Some implies lookup(back.offline, other)->Some_0.wf()
                    && !back.peers.contains_key(other) by {
                    lemma_lookup_without(s.offline, peer, other);
                }
                lemma_lookup_without(s.offline, peer, peer);
                assert(back.valid());
                if info.recv_budget > 1 {
                    lemma_grant_valid(back, peer, (info.recv_budget - 1) as u16);
                }
            },
            None => {},
        }
    }
}

/// Asking to send a request keeps the state valid.
pub proof fn lemma_send_request_valid(s: State, peer: MultihashView)
    requires
        s.valid(),
        s.can_grant(),
    ensures
        s.send_request(peer).valid(),
{
    lemma_locate_valid(s, peer);
}

/// Answering a request keeps the state valid.
pub proof fn lemma_send_response_valid(s: State, peer: MultihashView)
    requires
        s.valid(),
        s.can_grant(),
    ensures
        s.send_response(peer).valid(),
{
    if s.replenishes(peer) {
        let info = s.peers[peer];
        let max = info.limit.next_max;
        let filled = State {
            peers: s.peers.insert(
                peer,
                PeerInfo {
                    limit: Limit { max_recv: max, next_max: max },
                    recv_budget: max,
                    ..info
                },
            ),
            ..s
        };
        assert(filled.valid());
        lemma_grant_valid(filled, peer, max);
    }
}

/// Setting the default limit keeps the state valid.
pub proof fn lemma_set_receive_limit_valid(s: State, limit: u16)
    requires
        s.valid(),
        limit >= 1,
    ensures
        s.set_receive_limit(limit).valid(),
{
}

/// Setting the limit of one peer keeps the state valid.
pub proof fn lemma_override_receive_limit_valid(s: State, peer: MultihashView, limit: u16)
    requires
        s.valid(),
        limit >= 1,
    ensures
        s.override_receive_limit(peer, limit).valid(),
{
    let after = s.override_receive_limit(peer, limit);
    if !s.peers.contains_key(peer) {
        match lookup(s.offline, peer) {
            Some(info) => {
                assert forall|other: MultihashView|
                    (#[trigger] lookup(after.offline, other)) is Some implies lookup(after.offline, other)->Some_0.wf()
                    && !after.peers.contains_key(other) by {
                    lemma_lookup_without(s.offline, peer, other);
                    lemma_lookup_front(without(s.offline, peer), peer, after.offline[0].1, other);
                }
                lemma_without_shorter(s.offline, peer);
            },
            None => {},
        }
    }
}

/// Withdrawing the limit of one peer keeps the state valid.
pub proof fn lemma_remove_override_valid(s: State, peer: MultihashView)
    requires
        s.valid(),
    ensures
        s.remove_override(peer).valid(),
{
}

/// A peer that disconnects is not connected afterwards, and the state stays
/// valid.
pub proof fn lemma_disconnected_valid(s: State, peer: MultihashView)
    requires
        s.valid(),
    ensures
        s.disconnected(peer).valid(),
        !s.disconnected(peer).peers.contains_key(peer),
{
    let after = s.disconnected(peer);
    if s.peers.contains_key(peer) {
        let kept = State::remembered(s.peers[peer]);
        assert(kept.wf());
        assert forall|other: MultihashView|
            (#[trigger] lookup(after.offline, other)) is Some implies lookup(after.offline, other)->Some_0.wf()
            && !after.peers.contains_key(other) by {
            lemma_lookup_stored(s.offline, OFFLINE_PEERS as nat, peer, kept, other);
        }
        lemma_lookup_stored(s.offline, OFFLINE_PEERS as nat, peer, kept, peer);
    }
}

/// The closing of a connection keeps the state valid.
pub proof fn lemma_connection_closed_valid(s: State, peer: MultihashView, still_connected: bool)
    requires
        s.valid(),
    ensures
        s.connection_closed(peer, still_connected).valid(),
{
}

/// A response from a peer keeps the state valid.
pub proof fn lemma_on_response_valid(s: State, peer: MultihashView, header: Header)
    requires
        s.valid(),
    ensures
        s.on_response(peer, header).valid(),
{
}

/// A request from a peer keeps the state valid.
pub proof fn lemma_on_request_valid(s: State, peer: MultihashView, header: Header)
    requires
        s.valid(),
    ensures
        s.on_request(peer, header).valid(),
{
}

/// The failure of a request keeps the state valid.
pub proof fn lemma_on_outbound_failure_valid(s: State, peer: MultihashView, request: RequestId)
    requires
        s.valid(),
    ensures
        s.on_outbound_failure(peer, request).valid(),
{
}

/// The report of a submitted grant keeps the state valid.
pub proof fn lemma_credit_submitted_valid(
    s: State,
    peer: MultihashView,
    id: u64,
    request: RequestId,
)
    requires
        s.valid(),
    ensures
        s.credit_submitted(peer, id, request).valid(),
{
}

/// Handing out an event keeps the state valid.
pub proof fn lemma_next_event_valid(s: State)
    requires
        s.valid(),
    ensures
        s.next_event().valid(),
{
}

} // verus!
