//! The throttle engine.
//!
//! The engine keeps the budgets and decides; it sends nothing itself. The
//! host that owns the transport calls it for every request it wants to send,
//! every response it gives and every message and failure that the transport
//! reports, and does what the engine answers: submit a grant, reply with an
//! ack, pass a message on or drop it.

use crate::action::{Sending, Verdict};
use crate::credit::{Credit, Grant, RequestId};
use crate::limit::{Limit, PeerInfo};
use crate::message::{Header, Type};
use crate::model::{Notice, State, OFFLINE_PEERS};
use crate::offline::{
    cache_capacity, cache_entries, cache_get_mut, cache_new, cache_pop, cache_put,
    lemma_without_absent,
};
use crate::peer_id::PeerId;
use crate::peer_map::PeerMap;
use crate::validity::{
    lemma_connection_closed_valid, lemma_credit_submitted_valid, lemma_disconnected_valid,
    lemma_locate_valid, lemma_next_event_valid, lemma_on_outbound_failure_valid,
    lemma_on_request_valid, lemma_on_response_valid, lemma_override_receive_limit_valid,
    lemma_remove_override_valid, lemma_send_request_valid, lemma_send_response_valid,
    lemma_set_receive_limit_valid,
};
use lru::LruCache;
use std::collections::VecDeque;
use vstd::prelude::*;

verus! {

/// What the engine tells the host of its own accord.
#[derive(Debug, PartialEq, Eq)]
pub enum Event {
    /// We received more inbound requests than allowed.
    TooManyInboundRequests(PeerId),
    /// After the send limit of a peer was reached, sending to it can resume.
    ResumeSending(PeerId),
}

impl View for Event {
    type V = Notice;

    open spec fn view(&self) -> Notice {
        match self {
            Event::TooManyInboundRequests(peer) => Notice::TooManyInboundRequests(peer@),
            Event::ResumeSending(peer) => Notice::ResumeSending(peer@),
        }
    }
}

/// The per-peer budgets of a request/response protocol, and the credit
/// grants that refill them.
pub struct Throttled {
    /// Information per peer.
    peer_info: PeerMap<PeerInfo>,
    /// Information about previously connected peers.
    offline_peer_info: LruCache<PeerId, PeerInfo>,
    /// The default limit applies to all peers unless overridden.
    default_limit: Limit,
    /// Permanent limit overrides per peer.
    limit_overrides: PeerMap<Limit>,
    /// Pending events to report to the host.
    events: VecDeque<Event>,
    /// Current outbound credit grants in flight.
    credit_messages: PeerMap<Credit>,
    /// The current credit id.
    credit_id: u64,
}

impl View for Throttled {
    type V = State;

    closed spec fn view(&self) -> State {
        State {
            peers: self.peer_info@,
            offline: cache_entries(self.offline_peer_info),
            default_limit: self.default_limit,
            overrides: self.limit_overrides@,
            events: self.events@.map_values(|event: Event| event@),
            credits: self.credit_messages@,
            next_credit: self.credit_id,
        }
    }
}

impl Throttled {
    /// The engine is in a state that it can reach, and remembers as many
    /// disconnected peers as it is meant to.
    pub closed spec fn wf(&self) -> bool {
        self@.valid() && cache_capacity(self.offline_peer_info) == OFFLINE_PEERS
    }

    /// A well-formed engine is in a valid state.
    pub proof fn lemma_valid(&self)
        requires
            self.wf(),
        ensures
            self@.valid(),
    {
    }

    /// An engine that knows no peer and lets each of them have one request
    /// outstanding.
    pub fn new() -> (engine: Throttled)
        ensures
            engine.wf(),
            engine@ == State::initial(),
    {
        let engine = Throttled {
            peer_info: PeerMap::new(),
            offline_peer_info: cache_new(OFFLINE_PEERS),
            default_limit: Limit::new(1),
            limit_overrides: PeerMap::new(),
            events: VecDeque::new(),
            credit_messages: PeerMap::new(),
            credit_id: 0,
        };
        assert(engine@ =~= State::initial());
        engine
    }

    /// Whether an id is left for one more credit grant. The calls that may
    /// make out a grant ask for this.
    pub fn can_grant(&self) -> (left: bool)
        ensures
            left == self@.can_grant(),
    {
        self.credit_id < u64::MAX
    }

    /// The budget record of a connected peer.
    pub fn peer_info(&self, peer: &PeerId) -> (info: Option<PeerInfo>)
        ensures
            info == if self@.peers.contains_key(peer@) {
                Some(self@.peers[peer@])
            } else {
                None
            },
    {
        self.peer_info.get(peer)
    }

    /// The credit grant to `peer` that awaits its confirmation.
    pub fn credit_in_flight(&self, peer: &PeerId) -> (credit: Option<Credit>)
        ensures
            credit == if self@.credits.contains_key(peer@) {
                Some(self@.credits[peer@])
            } else {
                None
            },
    {
        self.credit_messages.get(peer)
    }

    /// Makes out a credit grant of `amount` requests to `peer`, with a new
    /// id, and records it as under way in place of any earlier grant.
    fn send_credit(&mut self, peer: &PeerId, amount: u16) -> (grant: Grant)
        requires
            old(self)@.can_grant(),
        ensures
            final(self)@ == old(self)@.grant(peer@, amount),
            grant == (Grant { id: old(self)@.next_credit, amount }),
            cache_capacity(final(self).offline_peer_info) == cache_capacity(
                old(self).offline_peer_info,
            ),
    {
        let id = self.next_credit_id();
        self.credit_messages.insert(peer.clone(), Credit { id, request: None, amount });
        Grant { id, amount }
    }

    /// Takes the next credit id.
    fn next_credit_id(&mut self) -> (id: u64)
        requires
            old(self)@.can_grant(),
        ensures
            id == old(self)@.next_credit,
            final(self)@ == (State { next_credit: (id + 1) as u64, ..old(self)@ }),
            cache_capacity(final(self).offline_peer_info) == cache_capacity(
                old(self).offline_peer_info,
            ),
    {
        let id = self.credit_id;
        self.credit_id += 1;
        id
    }

    /// Finds the record of `peer` among the connected peers, or puts it
    /// there: the record that was remembered of the peer, else a new one
    /// with the limit that applies to the peer. A peer that was remembered
    /// with room for more than one request is granted the rest at once.
    fn locate(&mut self, peer: &PeerId) -> (grant: Option<Grant>)
        requires
            old(self).wf(),
            old(self)@.can_grant(),
        ensures
            final(self).wf(),
            final(self)@ == old(self)@.locate(peer@),
            grant == old(self)@.locate_grant(peer@),
    {
        proof {
            lemma_locate_valid(self@, peer@);
        }
        if self.peer_info.contains_key(peer) {
            return None;
        }
        match cache_pop(&mut self.offline_peer_info, peer) {
            Some(info) => {
                self.peer_info.insert(peer.clone(), info);
                let grant = if info.recv_budget > 1 {
                    Some(self.send_credit(peer, info.recv_budget - 1))
                } else {
                    None
                };
                assert(self@ =~= old(self)@.locate(peer@));
                grant
            },
            None => {
                let limit = match self.limit_overrides.get(peer) {
                    Some(limit) => limit,
                    None => self.default_limit,
                };
                self.peer_info.insert(peer.clone(), PeerInfo::new(limit));
                proof {
                    lemma_without_absent(old(self)@.offline, peer@);
                }
                assert(self@ =~= old(self)@.locate(peer@));
                None
            },
        }
    }

    /// Sets the default receive limit, for peers that are not known yet.
    pub fn set_receive_limit(&mut self, limit: u16)
        requires
            old(self).wf(),
            limit >= 1,
        ensures
            final(self).wf(),
            final(self)@ == old(self)@.set_receive_limit(limit),
    {
        proof {
            lemma_set_receive_limit_valid(self@, limit);
        }
        self.default_limit = Limit::new(limit);
        assert(self@ =~= old(self)@.set_receive_limit(limit));
    }

    /// Overrides the receive limit of a single peer. A peer that is known
    /// gets the limit with the next grant.
    pub fn override_receive_limit(&mut self, peer: &PeerId, limit: u16)
        requires
            old(self).wf(),
            limit >= 1,
        ensures
            final(self).wf(),
            final(self)@ == old(self)@.override_receive_limit(peer@, limit),
    {
        proof {
            lemma_override_receive_limit_valid(self@, peer@, limit);
        }
        match self.peer_info.get(peer) {
            Some(info) => {
                let mut info = info;
                info.limit.set(limit);
                self.peer_info.insert(peer.clone(), info);
            },
            None => {
                match cache_get_mut(&mut self.offline_peer_info, peer) {
                    Some(info) => {
                        info.limit.set(limit);
                    },
                    None => {},
                }
            },
        }
        self.limit_overrides.insert(peer.clone(), Limit::new(limit));
        assert(self@ =~= old(self)@.override_receive_limit(peer@, limit));
    }

    /// Removes any limit override for the given peer.
    pub fn remove_override(&mut self, peer: &PeerId)
        requires
            old(self).wf(),
        ensures
            final(self).wf(),
            final(self)@ == old(self)@.remove_override(peer@),
    {
        proof {
            lemma_remove_override_valid(self@, peer@);
        }
        self.limit_overrides.remove(peer);
        assert(self@ =~= old(self)@.remove_override(peer@));
    }

    /// Whether a request to the given peer would be let out: the limit of
    /// outbound requests has not been reached for it.
    pub fn can_send(&self, peer: &PeerId) -> (free: bool)
        ensures
            free == self@.can_send(peer@),
    {
        match self.peer_info.get(peer) {
            Some(info) => info.send_budget > 0,
            None => true,
        }
    }

    /// Asks to send a request to a peer.
    ///
    /// The peer counts as connected from here on. If the limit of outbound
    /// requests has been reached, the request is not allowed: the host
    /// keeps it, and tries again once it is told that sending can resume.
    /// Else the request takes one off the budget, and the host submits it.
    /// A grant in the answer is submitted first.
    pub fn send_request(&mut self, peer: &PeerId) -> (outcome: Sending)
        requires
            old(self).wf(),
            old(self)@.can_grant(),
        ensures
            final(self).wf(),
            final(self)@ == old(self)@.send_request(peer@),
            outcome.allowed == old(self)@.may_send(peer@),
            outcome.grant == old(self)@.locate_grant(peer@),
    {
        proof {
            lemma_locate_valid(self@, peer@);
            lemma_send_request_valid(self@, peer@);
        }
        let grant = self.locate(peer);
        let mut info = self.peer_info.get(peer).unwrap();
        if info.send_budget == 0 {
            return Sending { grant, allowed: false };
        }
        info.send_budget -= 1;
        self.peer_info.insert(peer.clone(), info);
        assert(self@ =~= old(self)@.send_request(peer@));
        Sending { grant, allowed: true }
    }

    /// Tells the engine that the host answers a request of `peer`.
    ///
    /// If the peer has used up its budget, the host must first submit the
    /// grant that is returned: the pending limit comes into force, and the
    /// peer may send that many requests.
    pub fn send_response(&mut self, peer: &PeerId) -> (grant: Option<Grant>)
        requires
            old(self).wf(),
            old(self)@.can_grant(),
        ensures
            final(self).wf(),
            final(self)@ == old(self)@.send_response(peer@),
            grant == old(self)@.response_grant(peer@),
    {
        proof {
            lemma_send_response_valid(self@, peer@);
        }
        match self.peer_info.get(peer) {
            Some(info) => {
                if info.recv_budget == 0 {
                    let mut info = info;
                    let credit = info.limit.switch();
                    info.recv_budget = info.limit.max_recv;
                    self.peer_info.insert(peer.clone(), info);
                    let grant = self.send_credit(peer, credit);
                    assert(self@ =~= old(self)@.send_response(peer@));
                    Some(grant)
                } else {
                    None
                }
            },
            None => None,
        }
    }

    /// A connection to `peer` exists. The record of the peer may be there
    /// already, from a request that was sent to it; else it is made as for
    /// a request. A grant in the answer is for the host to submit.
    pub fn inject_connected(&mut self, peer: &PeerId) -> (grant: Option<Grant>)
        requires
            old(self).wf(),
            old(self)@.can_grant(),
        ensures
            final(self).wf(),
            final(self)@ == old(self)@.locate(peer@),
            grant == old(self)@.locate_grant(peer@),
    {
        self.locate(peer)
    }

    /// No connection to `peer` is left. Its record is kept among those of
    /// the disconnected peers, with a send budget of one and a receive
    /// budget of at least one, and the grant under way to it is given up.
    pub fn inject_disconnected(&mut self, peer: &PeerId)
        requires
            old(self).wf(),
        ensures
            final(self).wf(),
            final(self)@ == old(self)@.disconnected(peer@),
    {
        proof {
            lemma_disconnected_valid(self@, peer@);
        }
        match self.peer_info.remove(peer) {
            Some(info) => {
                let mut info = info;
                info.send_budget = 1;
                if info.recv_budget < 1 {
                    info.recv_budget = 1;
                }
                cache_put(&mut self.offline_peer_info, peer.clone(), info);
            },
            None => {},
        }
        self.credit_messages.remove(peer);
        assert(self@ =~= old(self)@.disconnected(peer@));
    }

    /// One connection to `peer` has closed; `still_connected` says whether
    /// another one is left. A grant that is under way may have been on the
    /// connection that closed: if the peer is still connected, the grant is
    /// returned for the host to submit again.
    pub fn inject_connection_closed(&mut self, peer: &PeerId, still_connected: bool) -> (grant:
        Option<Grant>)
        requires
            old(self).wf(),
        ensures
            final(self).wf(),
            final(self)@ == old(self)@.connection_closed(peer@, still_connected),
            grant == if old(self)@.resends_on_close(peer@, still_connected) {
                Some(old(self)@.resent(peer@))
            } else {
                None
            },
    {
        proof {
            lemma_connection_closed_valid(self@, peer@, still_connected);
        }
        if still_connected {
            self.resubmit(peer)
        } else {
            None
        }
    }

    /// Hands the grant under way to `peer` out once more, if there is one.
    fn resubmit(&mut self, peer: &PeerId) -> (grant: Option<Grant>)
        ensures
            final(self)@ == if old(self)@.credits.contains_key(peer@) {
                old(self)@.resubmit(peer@)
            } else {
                old(self)@
            },
            grant == if old(self)@.credits.contains_key(peer@) {
                Some(old(self)@.resent(peer@))
            } else {
                None
            },
            cache_capacity(final(self).offline_peer_info) == cache_capacity(
                old(self).offline_peer_info,
            ),
    {
        match self.credit_messages.get(peer) {
            Some(credit) => {
                self.credit_messages.insert(
                    peer.clone(),
                    Credit { id: credit.id, request: None, amount: credit.amount },
                );
                assert(self@ =~= old(self)@.resubmit(peer@));
                Some(Grant { id: credit.id, amount: credit.amount })
            },
            None => None,
        }
    }

    /// The host has submitted the grant `id` to `peer`, and the transport
    /// has taken it as the request `request`. If that grant is still under
    /// way, its failure will be known by this request id.
    pub fn credit_submitted(&mut self, peer: &PeerId, id: u64, request: RequestId)
        requires
            old(self).wf(),
        ensures
            final(self).wf(),
            final(self)@ == old(self)@.credit_submitted(peer@, id, request),
    {
        proof {
            lemma_credit_submitted_valid(self@, peer@, id, request);
        }
        match self.credit_messages.get(peer) {
            Some(credit) => {
                if credit.id == id {
                    self.credit_messages.insert(
                        peer.clone(),
                        Credit { id: credit.id, request: Some(request), amount: credit.amount },
                    );
                    assert(self@ =~= old(self)@.credit_submitted(peer@, id, request));
                }
            },
            None => {},
        }
    }

    /// The next event for the host, if one is pending. The host asks for
    /// it before it asks the transport for more.
    pub fn next_event(&mut self) -> (event: Option<Event>)
        requires
            old(self).wf(),
        ensures
            final(self).wf(),
            final(self)@ == old(self)@.next_event(),
            match event {
                Some(e) => old(self)@.pending_event() == Some(e@),
                None => old(self)@.pending_event() is None,
            },
    {
        proof {
            lemma_next_event_valid(self@);
        }
        let event = self.events.pop_front();
        assert(self@ =~= old(self)@.next_event());
        event
    }

    /// The transport has delivered a response of `peer`.
    ///
    /// An ack of the grant that is under way to the peer ends the wait for
    /// it. An application response goes on to the application if its
    /// payload could be read. Nothing else comes of a response.
    pub fn on_response(&mut self, peer: &PeerId, header: &Header, has_payload: bool) -> (verdict:
        Verdict)
        requires
            old(self).wf(),
        ensures
            final(self).wf(),
            final(self)@ == old(self)@.on_response(peer@, *header),
            verdict == State::response_verdict(*header, has_payload),
    {
        proof {
            lemma_on_response_valid(self@, peer@, *header);
        }
        match header.typ {
            Type::Ack => {
                match (self.credit_messages.get(peer), header.ident) {
                    (Some(credit), Some(ident)) => {
                        if credit.id == ident {
                            self.credit_messages.remove(peer);
                            assert(self@ =~= old(self)@.on_response(peer@, *header));
                        }
                    },
                    _ => {},
                }
                Verdict::Drop
            },
            Type::Response => {
                if has_payload {
                    Verdict::Deliver
                } else {
                    Verdict::Drop
                }
            },
            _ => Verdict::Drop,
        }
    }

    /// The transport has delivered a request of `peer`.
    ///
    /// A credit grant that names its id is acked. It is applied if the peer
    /// is connected and the id is newer than that of the grant applied
    /// last: the send budget grows by the amount, up to the largest number
    /// it can hold, and where it was used up, the host will be told that
    /// sending can resume. An application request of a connected peer that
    /// has no credit left is dropped, and the host will be told; else it
    /// takes one off the receive budget, counts as proof that the last
    /// grant arrived, and is delivered if its payload could be read.
    pub fn on_request(&mut self, peer: &PeerId, header: &Header, has_payload: bool) -> (verdict:
        Verdict)
        requires
            old(self).wf(),
        ensures
            final(self).wf(),
            final(self)@ == old(self)@.on_request(peer@, *header),
            verdict == old(self)@.request_verdict(peer@, *header, has_payload),
    {
        proof {
            lemma_on_request_valid(self@, peer@, *header);
        }
        match header.typ {
            Type::Credit => {
                let ident = match header.ident {
                    Some(ident) => ident,
                    None => {
                        return Verdict::Drop;
                    },
                };
                match self.peer_info.get(peer) {
                    Some(info) => {
                        let is_newer = match info.send_budget_id {
                            Some(applied) => applied < ident,
                            None => true,
                        };
                        if is_newer {
                            let credit = match header.credit {
                                Some(credit) => credit,
                                None => 0,
                            };
                            if info.send_budget == 0 && credit > 0 {
                                self.events.push_back(Event::ResumeSending(peer.clone()));
                            }
                            let mut info = info;
                            info.send_budget = info.send_budget.saturating_add(credit);
                            info.send_budget_id = Some(ident);
                            self.peer_info.insert(peer.clone(), info);
                            assert(self@ =~= old(self)@.on_request(peer@, *header));
                        }
                    },
                    None => {},
                }
                Verdict::Ack { ident }
            },
            Type::Request => {
                match self.peer_info.get(peer) {
                    Some(info) => {
                        if info.recv_budget == 0 {
                            self.events.push_back(Event::TooManyInboundRequests(peer.clone()));
                            assert(self@ =~= old(self)@.on_request(peer@, *header));
                            return Verdict::Drop;
                        }
                        let mut info = info;
                        info.recv_budget -= 1;
                        self.peer_info.insert(peer.clone(), info);
                        self.credit_messages.remove(peer);
                        assert(self@ =~= old(self)@.on_request(peer@, *header));
                    },
                    None => {},
                }
                if has_payload {
                    Verdict::Deliver
                } else {
                    Verdict::Drop
                }
            },
            _ => Verdict::Drop,
        }
    }

    /// The transport has given up on the request `request` to `peer`.
    ///
    /// If the request carried the grant that is under way to the peer, the
    /// grant is returned for the host to submit again, under its old id.
    /// The failure itself goes on to the application in either case.
    pub fn on_outbound_failure(&mut self, peer: &PeerId, request: RequestId) -> (grant: Option<
        Grant,
    >)
        requires
            old(self).wf(),
        ensures
            final(self).wf(),
            final(self)@ == old(self)@.on_outbound_failure(peer@, request),
            grant == if old(self)@.resends_on_failure(peer@, request) {
                Some(old(self)@.resent(peer@))
            } else {
                None
            },
    {
        proof {
            lemma_on_outbound_failure_valid(self@, peer@, request);
        }
        match self.credit_messages.get(peer) {
            Some(credit) => {
                match credit.request {
                    Some(carrier) => {
                        if carrier.0 == request.0 {
                            self.resubmit(peer)
                        } else {
                            None
                        }
                    },
                    None => None,
                }
            },
            None => None,
        }
    }
}

} // verus!
