//! What holds of the throttle whatever the host and the peers do.
//!
//! The laws speak of the states of [`crate::model`]. They hold of the engine
//! because each of its methods takes it from one state to the next as the
//! model says.

use crate::credit::Grant;
use crate::hash::MultihashView;
use crate::message::{Header, Type};
use crate::model::{newer, Input, State, OFFLINE_PEERS};
use crate::offline::lemma_lookup_stored;
use crate::validity::{
    lemma_connection_closed_valid, lemma_credit_submitted_valid, lemma_disconnected_valid,
    lemma_locate_valid, lemma_next_event_valid, lemma_on_outbound_failure_valid,
    lemma_on_request_valid, lemma_on_response_valid, lemma_override_receive_limit_valid,
    lemma_remove_override_valid, lemma_send_request_valid, lemma_send_response_valid,
    lemma_set_receive_limit_valid,
};
use vstd::prelude::*;

verus! {

/// Whether the host may make each of the calls among `inputs`.
pub open spec fn all_allowed(inputs: Seq<Input>) -> bool {
    forall|k: int| 0 <= k < inputs.len() ==> (#[trigger] inputs[k]).allowed()
}

/// Whether `peer` stays connected throughout the inputs from place `from`
/// up to, not including, place `to`: none of them is its disconnection.
pub open spec fn stays_connected(inputs: Seq<Input>, peer: MultihashView, from: int, to: int) -> bool {
    forall|k: int| from <= k < to ==> #[trigger] inputs[k] != Input::Disconnected(peer)
}

/// Whether no new grant is made out to `peer` by any of `inputs`, taken
/// one after the other from the state `s`.
pub open spec fn no_grant_to(s: State, inputs: Seq<Input>, peer: MultihashView) -> bool {
    forall|k: int|
        0 <= k < inputs.len() ==> !((#[trigger] s.before(inputs, k).issues(inputs[k])) matches Some(
            (to, _),
        ) && to == peer)
}

/// The number of application requests of `peer` among `inputs` that are
/// let in, when the inputs are taken one after the other from the state `s`.
pub open spec fn accepted(s: State, inputs: Seq<Input>, peer: MultihashView) -> nat
    decreases inputs.len(),
{
    if inputs.len() == 0 {
        0
    } else {
        let earlier = accepted(s, inputs.drop_last(), peer);
        if s.run(inputs.drop_last()).accepts(inputs.last(), peer) {
            earlier + 1
        } else {
            earlier
        }
    }
}

/// Every input leaves a valid state valid. An input that brings about a new
/// grant takes one credit id, any other takes none.
pub proof fn law_step_valid(s: State, input: Input)
    requires
        s.valid(),
        s.can_grant(),
        input.allowed(),
    ensures
        s.step(input).valid(),
        s.step(input).next_credit == if s.issues(input) is Some {
            s.next_credit + 1
        } else {
            s.next_credit as int
        },
{
    match input {
        Input::SendRequest(peer) => {
            lemma_locate_valid(s, peer);
            lemma_send_request_valid(s, peer);
        },
        Input::SendResponse(peer) => lemma_send_response_valid(s, peer),
        Input::SetReceiveLimit(limit) => lemma_set_receive_limit_valid(s, limit),
        Input::OverrideReceiveLimit(peer, limit) => lemma_override_receive_limit_valid(
            s,
            peer,
            limit,
        ),
        Input::RemoveOverride(peer) => lemma_remove_override_valid(s, peer),
        Input::Connected(peer) => lemma_locate_valid(s, peer),
        Input::Disconnected(peer) => lemma_disconnected_valid(s, peer),
        Input::ConnectionClosed(peer, still_connected) => lemma_connection_closed_valid(
            s,
            peer,
            still_connected,
        ),
        Input::Response(peer, header) => lemma_on_response_valid(s, peer, header),
        Input::Request(peer, header) => lemma_on_request_valid(s, peer, header),
        Input::OutboundFailure(peer, request) => lemma_on_outbound_failure_valid(s, peer, request),
        Input::CreditSubmitted(peer, id, request) => lemma_credit_submitted_valid(
            s,
            peer,
            id,
            request,
        ),
        Input::NextEvent => lemma_next_event_valid(s),
    }
}

/// The state in which an input finds the throttle is the one that the
/// input before it has left.
pub proof fn lemma_before(s: State, inputs: Seq<Input>, k: int)
    requires
        0 <= k < inputs.len(),
    ensures
        s.before(inputs, k + 1) == s.before(inputs, k).step(inputs[k]),
        s.before(inputs, 0) == s,
        s.before(inputs, inputs.len() as int) == s.run(inputs),
{
    assert(inputs.take(k + 1).drop_last() == inputs.take(k));
    assert(inputs.take(k + 1).last() == inputs[k]);
    assert(inputs.take(0).len() == 0);
    assert(inputs.take(inputs.len() as int) == inputs);
}

/// As long as credit ids are left, every state on the way is valid, and no
/// more ids are taken than inputs have come.
pub proof fn law_run_valid(s: State, inputs: Seq<Input>, k: int)
    requires
        s.valid(),
        all_allowed(inputs),
        s.next_credit + inputs.len() <= u64::MAX,
        0 <= k <= inputs.len(),
    ensures
        s.before(inputs, k).valid(),
        s.next_credit <= s.before(inputs, k).next_credit <= s.next_credit + k,
    decreases k,
{
    if k == 0 {
        assert(inputs.take(0).len() == 0);
    } else {
        law_run_valid(s, inputs, k - 1);
        lemma_before(s, inputs, k - 1);
        law_step_valid(s.before(inputs, k - 1), inputs[k - 1]);
    }
}

/// Every state that a new throttle reaches is valid.
pub proof fn law_reachable_valid(inputs: Seq<Input>)
    requires
        all_allowed(inputs),
        inputs.len() <= u64::MAX,
    ensures
        State::initial().run(inputs).valid(),
{
    law_run_valid(State::initial(), inputs, inputs.len() as int);
    assert(inputs.take(inputs.len() as int) == inputs);
}

/// A new grant bears the next credit id, and is from then on the one grant
/// under way to its peer: it has taken the place of any earlier one.
pub proof fn law_one_credit_per_peer(s: State, input: Input, peer: MultihashView, grant: Grant)
    requires
        s.valid(),
        s.can_grant(),
        input.allowed(),
        s.issues(input) == Some((peer, grant)),
    ensures
        grant.id == s.next_credit,
        s.step(input).credits.contains_key(peer),
        s.step(input).credits[peer].grant() == grant,
        s.step(input).credits[peer].request is None,
{
    match input {
        Input::SendRequest(to) => {
            lemma_locate_valid(s, to);
        },
        _ => {},
    }
}

/// The credit ids never go back.
proof fn lemma_ids_monotone(s: State, inputs: Seq<Input>, a: int, b: int)
    requires
        s.valid(),
        all_allowed(inputs),
        s.next_credit + inputs.len() <= u64::MAX,
        0 <= a <= b <= inputs.len(),
    ensures
        s.before(inputs, a).next_credit <= s.before(inputs, b).next_credit,
    decreases b - a,
{
    if a < b {
        lemma_ids_monotone(s, inputs, a, b - 1);
        law_run_valid(s, inputs, b - 1);
        lemma_before(s, inputs, b - 1);
        law_step_valid(s.before(inputs, b - 1), inputs[b - 1]);
    }
}

/// The ids of the grants that one throttle makes out are strictly
/// increasing: of two new grants, the later one has the larger id.
pub proof fn law_credit_ids_increase(s: State, inputs: Seq<Input>, i: int, j: int)
    requires
        s.valid(),
        all_allowed(inputs),
        s.next_credit + inputs.len() <= u64::MAX,
        0 <= i < j < inputs.len(),
        s.before(inputs, i).issues(inputs[i]) is Some,
        s.before(inputs, j).issues(inputs[j]) is Some,
    ensures
        s.before(inputs, i).issues(inputs[i])->Some_0.1.id < s.before(inputs, j).issues(
            inputs[j],
        )->Some_0.1.id,
{
    law_run_valid(s, inputs, i);
    law_run_valid(s, inputs, j);
    lemma_before(s, inputs, i);
    law_step_valid(s.before(inputs, i), inputs[i]);
    lemma_ids_monotone(s, inputs, i + 1, j);
}

/// The send budget of a connected peer goes up only when a credit grant of
/// that peer is applied, and a grant is applied only if its id is newer
/// than the id of every grant applied before: the id applied last is then
/// the one of this grant.
pub proof fn law_send_budget_rises_by_newer_credit(s: State, input: Input, peer: MultihashView)
    requires
        s.valid(),
        s.can_grant(),
        input.allowed(),
        s.peers.contains_key(peer),
        s.step(input).peers.contains_key(peer),
        s.step(input).peers[peer].send_budget > s.peers[peer].send_budget,
    ensures
        input matches Input::Request(from, header) && from == peer && s.applies(peer, header)
            && s.step(input).peers[peer].send_budget_id == header.ident,
{
    match input {
        Input::Disconnected(from) => {
            lemma_disconnected_valid(s, from);
        },
        _ => {},
    }
}

/// While a peer is connected, the id of the grant applied last only grows:
/// a grant that was applied, and every older one, is not applied again.
pub proof fn law_applied_ids_increase(s: State, input: Input, peer: MultihashView)
    requires
        s.valid(),
        s.can_grant(),
        input.allowed(),
        s.peers.contains_key(peer),
        s.step(input).peers.contains_key(peer),
    ensures
        s.step(input).peers[peer].send_budget_id == s.peers[peer].send_budget_id || (s.step(
            input,
        ).peers[peer].send_budget_id matches Some(id) && newer(id, s.peers[peer].send_budget_id)),
{
    match input {
        Input::Disconnected(from) => {
            lemma_disconnected_valid(s, from);
        },
        _ => {},
    }
}

/// When the send budget of a connected peer goes from nothing to something,
/// the notice that sending can resume is put at the end of what the host
/// is to be told.
pub proof fn law_resume_announced(s: State, input: Input, peer: MultihashView)
    requires
        s.valid(),
        s.can_grant(),
        input.allowed(),
        s.peers.contains_key(peer),
        s.step(input).peers.contains_key(peer),
        s.peers[peer].send_budget == 0,
        s.step(input).peers[peer].send_budget > 0,
    ensures
        s.announces_resume(input, peer),
{
    law_send_budget_rises_by_newer_credit(s, input, peer);
}

/// A connected peer stays connected until it disconnects.
pub proof fn lemma_stays_connected(s: State, input: Input, peer: MultihashView)
    requires
        s.valid(),
        s.can_grant(),
        s.peers.contains_key(peer),
        input != Input::Disconnected(peer),
    ensures
        s.step(input).peers.contains_key(peer),
{
    match input {
        Input::SendRequest(to) => {
            lemma_locate_valid(s, to);
        },
        _ => {},
    }
}

/// A peer that is connected when the input at place `from` comes is
/// connected at every place up to `to`, if it does not disconnect.
proof fn lemma_connected_throughout(
    s: State,
    inputs: Seq<Input>,
    peer: MultihashView,
    from: int,
    to: int,
)
    requires
        s.valid(),
        all_allowed(inputs),
        s.next_credit + inputs.len() <= u64::MAX,
        0 <= from <= to <= inputs.len(),
        s.before(inputs, from).peers.contains_key(peer),
        stays_connected(inputs, peer, from, to),
    ensures
        s.before(inputs, to).peers.contains_key(peer),
    decreases to - from,
{
    if from < to {
        lemma_connected_throughout(s, inputs, peer, from, to - 1);
        law_run_valid(s, inputs, to - 1);
        lemma_before(s, inputs, to - 1);
        assert(inputs[to - 1] != Input::Disconnected(peer));
        lemma_stays_connected(s.before(inputs, to - 1), inputs[to - 1], peer);
    }
}

/// Between a place where a connected peer has no send budget and a later
/// place where it has some, there is an input that announces that sending
/// can resume.
proof fn lemma_budget_rise(s: State, inputs: Seq<Input>, peer: MultihashView, lo: int, hi: int)
    requires
        s.valid(),
        all_allowed(inputs),
        s.next_credit + inputs.len() <= u64::MAX,
        0 <= lo <= hi <= inputs.len(),
        stays_connected(inputs, peer, lo, hi),
        s.before(inputs, lo).peers.contains_key(peer),
        s.before(inputs, lo).peers[peer].send_budget == 0,
        s.before(inputs, hi).peers[peer].send_budget > 0,
    ensures
        exists|k: int|
            lo <= k < hi && #[trigger] s.before(inputs, k).announces_resume(inputs[k], peer),
    decreases hi - lo,
{
    assert(lo < hi);
    let last = hi - 1;
    lemma_connected_throughout(s, inputs, peer, lo, last);
    lemma_connected_throughout(s, inputs, peer, lo, hi);
    law_run_valid(s, inputs, last);
    lemma_before(s, inputs, last);
    if s.before(inputs, last).peers[peer].send_budget == 0 {
        law_resume_announced(s.before(inputs, last), inputs[last], peer);
        assert(s.before(inputs, last).announces_resume(inputs[last], peer));
    } else {
        lemma_budget_rise(s, inputs, peer, lo, last);
        let k = choose|k: int|
            lo <= k < last && #[trigger] s.before(inputs, k).announces_resume(inputs[k], peer);
        assert(lo <= k < hi && s.before(inputs, k).announces_resume(inputs[k], peer));
    }
}

/// After a request to a peer was refused, no request to that peer is let
/// out before the notice that sending can resume has been put up for the
/// host, as long as the peer does not disconnect in between.
pub proof fn law_refused_then_resumed(
    s: State,
    inputs: Seq<Input>,
    peer: MultihashView,
    i: int,
    j: int,
)
    requires
        s.valid(),
        all_allowed(inputs),
        s.next_credit + inputs.len() <= u64::MAX,
        0 <= i < j < inputs.len(),
        inputs[i] == Input::SendRequest(peer),
        !s.before(inputs, i).may_send(peer),
        inputs[j] == Input::SendRequest(peer),
        s.before(inputs, j).may_send(peer),
        stays_connected(inputs, peer, i + 1, j),
    ensures
        exists|k: int|
            i < k < j && #[trigger] s.before(inputs, k).announces_resume(inputs[k], peer),
{
    law_run_valid(s, inputs, i);
    lemma_before(s, inputs, i);
    lemma_locate_valid(s.before(inputs, i), peer);
    lemma_connected_throughout(s, inputs, peer, i + 1, j);
    lemma_budget_rise(s, inputs, peer, i + 1, j);
    let k = choose|k: int|
        i + 1 <= k < j && #[trigger] s.before(inputs, k).announces_resume(inputs[k], peer);
    assert(i < k < j && s.before(inputs, k).announces_resume(inputs[k], peer));
}

/// An input changes the receive budget of a connected peer in one of three
/// ways: a request that is let in takes one off, a new grant to the peer
/// fills it up, anything else leaves it as it is.
pub proof fn law_receive_budget_step(s: State, input: Input, peer: MultihashView)
    requires
        s.valid(),
        s.can_grant(),
        input.allowed(),
        s.peers.contains_key(peer),
        input != Input::Disconnected(peer),
        !(s.issues(input) matches Some((to, _)) && to == peer),
    ensures
        s.step(input).peers.contains_key(peer),
        s.step(input).peers[peer].recv_budget == if s.accepts(input, peer) {
            s.peers[peer].recv_budget - 1
        } else {
            s.peers[peer].recv_budget as int
        },
{
    lemma_stays_connected(s, input, peer);
}

/// The requests of a connected peer that are let in take as much off its
/// receive budget as they are many, as long as no new grant is made out to
/// the peer and it does not disconnect. So no more are let in than the
/// budget allowed at the start.
pub proof fn law_requests_within_budget(s: State, inputs: Seq<Input>, peer: MultihashView)
    requires
        s.valid(),
        all_allowed(inputs),
        s.next_credit + inputs.len() <= u64::MAX,
        s.peers.contains_key(peer),
        stays_connected(inputs, peer, 0, inputs.len() as int),
        no_grant_to(s, inputs, peer),
    ensures
        s.run(inputs).peers.contains_key(peer),
        s.run(inputs).peers[peer].recv_budget + accepted(s, inputs, peer) == s.peers[peer].recv_budget,
        accepted(s, inputs, peer) <= s.peers[peer].recv_budget,
    decreases inputs.len(),
{
    if inputs.len() > 0 {
        let earlier = inputs.drop_last();
        let n = earlier.len() as int;
        assert forall|k: int| 0 <= k < n implies #[trigger] earlier[k] != Input::Disconnected(
            peer,
        ) by {
            assert(inputs[k] != Input::Disconnected(peer));
        }
        assert forall|k: int| 0 <= k < n implies !((#[trigger] s.before(earlier, k).issues(
            earlier[k],
        )) matches Some((to, _)) && to == peer) by {
            assert(earlier.take(k) == inputs.take(k));
            assert(earlier[k] == inputs[k]);
            assert(!(s.before(inputs, k).issues(inputs[k]) matches Some((to, _)) && to == peer));
        }
        assert forall|k: int| 0 <= k < n implies (#[trigger] earlier[k]).allowed() by {
            assert(inputs[k].allowed());
        }
        law_requests_within_budget(s, earlier, peer);
        assert(inputs.take(n) == earlier);
        law_run_valid(s, inputs, n);
        assert(s.before(inputs, n) == s.run(earlier));
        assert(inputs[n] != Input::Disconnected(peer));
        assert(!(s.before(inputs, n).issues(inputs[n]) matches Some((to, _)) && to == peer));
        law_receive_budget_step(s.run(earlier), inputs.last(), peer);
    }
}

/// Between the grant that goes with a response and the next new grant to
/// the same peer, no more requests of the peer are let in than the grant
/// allows.
pub proof fn law_requests_between_grants(s: State, inputs: Seq<Input>, peer: MultihashView)
    requires
        s.valid(),
        all_allowed(inputs),
        s.next_credit + 1 + inputs.len() <= u64::MAX,
        s.response_grant(peer) is Some,
        stays_connected(inputs, peer, 0, inputs.len() as int),
        no_grant_to(s.send_response(peer), inputs, peer),
    ensures
        accepted(s.send_response(peer), inputs, peer) <= s.response_grant(peer)->Some_0.amount,
{
    lemma_send_response_valid(s, peer);
    law_requests_within_budget(s.send_response(peer), inputs, peer);
}

/// Between the grant to a peer that has come back and the next new grant
/// to it, the peer is let in one request more than the grant allows: the
/// one that every peer may send without a grant.
pub proof fn law_requests_after_return(s: State, inputs: Seq<Input>, peer: MultihashView)
    requires
        s.valid(),
        all_allowed(inputs),
        s.next_credit + 1 + inputs.len() <= u64::MAX,
        s.locate_grant(peer) is Some,
        stays_connected(inputs, peer, 0, inputs.len() as int),
        no_grant_to(s.locate(peer), inputs, peer),
    ensures
        accepted(s.locate(peer), inputs, peer) <= s.locate_grant(peer)->Some_0.amount + 1,
{
    lemma_locate_valid(s, peer);
    law_requests_within_budget(s.locate(peer), inputs, peer);
}

/// A credit grant that arrives twice is applied once: the second copy
/// changes nothing.
pub proof fn law_grant_applied_once(s: State, peer: MultihashView, header: Header)
    requires
        header.typ == Type::Credit,
    ensures
        s.on_request(peer, header).on_request(peer, header) == s.on_request(peer, header),
{
}

/// A grant that is handed out again is the grant that was under way: the
/// same id, the same amount.
pub proof fn law_resent_grant_unchanged(s: State, peer: MultihashView)
    requires
        s.credits.contains_key(peer),
    ensures
        s.resubmit(peer).credits[peer].grant() == s.credits[peer].grant(),
        s.resent(peer) == s.credits[peer].grant(),
{
}

/// A peer that disconnects and comes back is known as it was remembered,
/// and is granted at once what it may send beyond the first request.
pub proof fn law_returning_peer_restored(s: State, peer: MultihashView)
    requires
        s.valid(),
        s.peers.contains_key(peer),
    ensures
        s.disconnected(peer).locate(peer).peers[peer] == State::remembered(s.peers[peer]),
        s.disconnected(peer).locate_grant(peer) == if State::remembered(
            s.peers[peer],
        ).recv_budget > 1 {
            Some(
                Grant {
                    id: s.next_credit,
                    amount: (State::remembered(s.peers[peer]).recv_budget - 1) as u16,
                },
            )
        } else {
            None
        },
{
    lemma_lookup_stored(
        s.offline,
        OFFLINE_PEERS as nat,
        peer,
        State::remembered(s.peers[peer]),
        peer,
    );
}

/// An application request that is let in shows that the last grant has
/// arrived: no grant to the peer is under way after it.
pub proof fn law_request_confirms_grant(s: State, peer: MultihashView, header: Header)
    requires
        s.peers.contains_key(peer),
        header.typ == Type::Request,
        !s.exceeds(peer),
    ensures
        !s.on_request(peer, header).credits.contains_key(peer),
{
}

} // verus!
