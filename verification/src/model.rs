//! The throttle as a state machine: what it knows, and what each call and
//! each message makes of that.
//!
//! The engine in [`crate::throttle`] is specified by these functions: each
//! of its methods leaves it in the state that the function of the same name
//! gives here.

use crate::action::Verdict;
use crate::credit::{Credit, Grant, RequestId};
use crate::hash::MultihashView;
use crate::limit::{Limit, PeerInfo};
use crate::message::{Header, Type};
use crate::offline::{lookup, stored, touched, without};
use vstd::prelude::*;

verus! {

/// The number of disconnected peers whose budgets are remembered.
pub const OFFLINE_PEERS: usize = 8192;

/// What the throttle tells the host of its own accord.
pub enum Notice {
    /// A peer sent a request that it had no credit for.
    TooManyInboundRequests(MultihashView),
    /// A peer that could not be sent to has granted credit.
    ResumeSending(MultihashView),
}

/// Whether the grant `id` is newer than the one applied last.
pub open spec fn newer(id: u64, last: Option<u64>) -> bool {
    match last {
        None => true,
        Some(applied) => applied < id,
    }
}

/// What the throttle knows.
#[verifier::ext_equal]
pub struct State {
    /// The budgets of the connected peers.
    pub peers: Map<MultihashView, PeerInfo>,
    /// The budgets of peers that have disconnected, the one used last first.
    pub offline: Seq<(MultihashView, PeerInfo)>,
    /// The limit for peers that have none of their own.
    pub default_limit: Limit,
    /// The limits that were set for single peers.
    pub overrides: Map<MultihashView, Limit>,
    /// What the host has yet to be told.
    pub events: Seq<Notice>,
    /// The grants that the peers have not confirmed, one per peer at most.
    pub credits: Map<MultihashView, Credit>,
    /// The id of the next grant.
    pub next_credit: u64,
}

impl State {
    /// The state of a new throttle: no peers, a limit of one.
    pub open spec fn initial() -> State {
        State {
            peers: Map::empty(),
            offline: Seq::empty(),
            default_limit: Limit { max_recv: 1, next_max: 1 },
            overrides: Map::empty(),
            events: Seq::empty(),
            credits: Map::empty(),
            next_credit: 0,
        }
    }

    /// What holds of every state that the throttle reaches.
    ///
    /// Limits admit a request, and no peer is awaited more requests of than
    /// its limit allows. A peer is known as connected or as disconnected,
    /// never as both. A grant is under way only to a connected peer, and its
    /// id is one that was handed out.
    pub open spec fn valid(self) -> bool {
        &&& self.default_limit.wf()
        &&& forall|peer: MultihashView| #[trigger]
            self.overrides.contains_key(peer) ==> self.overrides[peer].wf()
        &&& forall|peer: MultihashView| #[trigger]
            self.peers.contains_key(peer) ==> self.peers[peer].wf()
        &&& forall|peer: MultihashView|
            (#[trigger] lookup(self.offline, peer)) matches Some(info) ==> info.wf()
                && !self.peers.contains_key(peer)
        &&& self.offline.len() <= OFFLINE_PEERS
        &&& forall|peer: MultihashView| #[trigger]
            self.credits.contains_key(peer) ==> self.credits[peer].id < self.next_credit
                && self.peers.contains_key(peer)
    }

    /// Whether an id is left for one more grant.
    pub open spec fn can_grant(self) -> bool {
        self.next_credit < u64::MAX
    }

    /// The limit that applies to a peer of which nothing is known.
    pub open spec fn limit_for(self, peer: MultihashView) -> Limit {
        if self.overrides.contains_key(peer) {
            self.overrides[peer]
        } else {
            self.default_limit
        }
    }

    /// The state after a grant of `amount` requests was made out to `peer`.
    /// It takes the next id and the place of any grant that was under way.
    pub open spec fn grant(self, peer: MultihashView, amount: u16) -> State {
        State {
            credits: self.credits.insert(
                peer,
                Credit { id: self.next_credit, request: None, amount },
            ),
            next_credit: (self.next_credit + 1) as u64,
            ..self
        }
    }

    /// The grant that is made when `peer` comes to be known as connected:
    /// a peer that is remembered with room for more than one request is told
    /// at once how many it may send beyond the first.
    pub open spec fn locate_grant(self, peer: MultihashView) -> Option<Grant> {
        if self.peers.contains_key(peer) {
            None
        } else {
            match lookup(self.offline, peer) {
                Some(info) => if info.recv_budget > 1 {
                    Some(Grant { id: self.next_credit, amount: (info.recv_budget - 1) as u16 })
                } else {
                    None
                },
                None => None,
            }
        }
    }

    /// The state after `peer` has come to be known as connected. A peer
    /// that is connected stays as it is. One that is remembered gets its
    /// record back. Any other starts with the limit that applies to it.
    pub open spec fn locate(self, peer: MultihashView) -> State {
        if self.peers.contains_key(peer) {
            self
        } else {
            match lookup(self.offline, peer) {
                Some(info) => {
                    let back = State {
                        peers: self.peers.insert(peer, info),
                        offline: without(self.offline, peer),
                        ..self
                    };
                    if info.recv_budget > 1 {
                        back.grant(peer, (info.recv_budget - 1) as u16)
                    } else {
                        back
                    }
                },
                None => State {
                    peers: self.peers.insert(peer, PeerInfo::fresh(self.limit_for(peer))),
                    ..self
                },
            }
        }
    }

    /// Whether a request to `peer` is let out: the peer, once known as
    /// connected, has budget left.
    pub open spec fn may_send(self, peer: MultihashView) -> bool {
        self.locate(peer).peers[peer].send_budget > 0
    }

    /// The state after the host asked to send a request to `peer`. The
    /// peer is known as connected from then on. A request that is let out
    /// takes one off the send budget.
    pub open spec fn send_request(self, peer: MultihashView) -> State {
        let known = self.locate(peer);
        let info = known.peers[peer];
        if info.send_budget == 0 {
            known
        } else {
            State {
                peers: known.peers.insert(
                    peer,
                    PeerInfo { send_budget: (info.send_budget - 1) as u16, ..info },
                ),
                ..known
            }
        }
    }

    /// Whether answering `peer` comes with a grant: the peer is connected
    /// and has used up what it was allowed to send.
    pub open spec fn replenishes(self, peer: MultihashView) -> bool {
        self.peers.contains_key(peer) && self.peers[peer].recv_budget == 0
    }

    /// The grant that goes with a response to `peer`, if any: as many
    /// requests as the pending limit allows.
    pub open spec fn response_grant(self, peer: MultihashView) -> Option<Grant> {
        if self.replenishes(peer) {
            Some(Grant { id: self.next_credit, amount: self.peers[peer].limit.next_max })
        } else {
            None
        }
    }

    /// The state after the host answered a request of `peer`. Where the
    /// peer has used up its budget, the pending limit comes into force, the
    /// budget is filled up to it, and a grant of that many requests is made.
    pub open spec fn send_response(self, peer: MultihashView) -> State {
        if self.replenishes(peer) {
            let info = self.peers[peer];
            let max = info.limit.next_max;
            State {
                peers: self.peers.insert(
                    peer,
                    PeerInfo {
                        limit: Limit { max_recv: max, next_max: max },
                        recv_budget: max,
                        ..info
                    },
                ),
                ..self
            }.grant(peer, max)
        } else {
            self
        }
    }

    /// The state after the limit for peers without one of their own was set.
    pub open spec fn set_receive_limit(self, limit: u16) -> State {
        State { default_limit: Limit { max_recv: 1, next_max: limit }, ..self }
    }

    /// The state after a limit was set for `peer` alone. A peer that is
    /// known, connected or not, gets it as its pending limit; a remembered
    /// peer counts as used by that.
    pub open spec fn override_receive_limit(self, peer: MultihashView, limit: u16) -> State {
        let overrides = self.overrides.insert(peer, Limit { max_recv: 1, next_max: limit });
        if self.peers.contains_key(peer) {
            let info = self.peers[peer];
            State {
                peers: self.peers.insert(
                    peer,
                    PeerInfo { limit: Limit { next_max: limit, ..info.limit }, ..info },
                ),
                overrides,
                ..self
            }
        } else {
            match lookup(self.offline, peer) {
                Some(info) => State {
                    offline: touched(
                        self.offline,
                        peer,
                        PeerInfo { limit: Limit { next_max: limit, ..info.limit }, ..info },
                    ),
                    overrides,
                    ..self
                },
                None => State { overrides, ..self },
            }
        }
    }

    /// The state after the limit of `peer` alone was withdrawn.
    pub open spec fn remove_override(self, peer: MultihashView) -> State {
        State { overrides: self.overrides.remove(peer), ..self }
    }

    /// The record that is remembered of a peer that disconnects: it may be
    /// sent one request when it is back, and may send at least one.
    pub open spec fn remembered(info: PeerInfo) -> PeerInfo {
        PeerInfo {
            send_budget: 1,
            recv_budget: if info.recv_budget < 1 {
                1
            } else {
                info.recv_budget
            },
            ..info
        }
    }

    /// The state after `peer` has disconnected: its record moves to the
    /// remembered ones, and a grant under way to it is given up.
    pub open spec fn disconnected(self, peer: MultihashView) -> State {
        if self.peers.contains_key(peer) {
            State {
                peers: self.peers.remove(peer),
                offline: stored(
                    self.offline,
                    OFFLINE_PEERS as nat,
                    peer,
                    Self::remembered(self.peers[peer]),
                ),
                credits: self.credits.remove(peer),
                ..self
            }
        } else {
            State { credits: self.credits.remove(peer), ..self }
        }
    }

    /// The state after the grant under way to `peer` was handed to the host
    /// once more: it belongs to no request until the host reports one.
    pub open spec fn resubmit(self, peer: MultihashView) -> State {
        State {
            credits: self.credits.insert(peer, Credit { request: None, ..self.credits[peer] }),
            ..self
        }
    }

    /// Whether the grant to `peer` is sent again when one of several
    /// connections to it has closed.
    pub open spec fn resends_on_close(self, peer: MultihashView, still_connected: bool) -> bool {
        still_connected && self.credits.contains_key(peer)
    }

    /// The state after a connection to `peer` has closed.
    pub open spec fn connection_closed(self, peer: MultihashView, still_connected: bool) -> State {
        if self.resends_on_close(peer, still_connected) {
            self.resubmit(peer)
        } else {
            self
        }
    }

    /// The state after a response with `header` has come from `peer`. An
    /// ack of the grant that is under way to the peer ends the wait for it.
    pub open spec fn on_response(self, peer: MultihashView, header: Header) -> State {
        if header.typ == Type::Ack && self.credits.contains_key(peer) && header.ident == Some(
            self.credits[peer].id,
        ) {
            State { credits: self.credits.remove(peer), ..self }
        } else {
            self
        }
    }

    /// Whether a credit grant with `header` from `peer` is applied: the
    /// peer is connected, and the grant has an id that is newer than the
    /// one applied last.
    pub open spec fn applies(self, peer: MultihashView, header: Header) -> bool {
        &&& header.typ == Type::Credit
        &&& self.peers.contains_key(peer)
        &&& header.ident matches Some(id)
        &&& newer(id, self.peers[peer].send_budget_id)
    }

    /// The requests that a grant allows: none where it does not say.
    pub open spec fn amount(header: Header) -> u16 {
        match header.credit {
            Some(amount) => amount,
            None => 0,
        }
    }

    /// Whether an application request of `peer` is refused: the peer is
    /// connected and has no credit left.
    pub open spec fn exceeds(self, peer: MultihashView) -> bool {
        self.peers.contains_key(peer) && self.peers[peer].recv_budget == 0
    }

    /// The state after a request with `header` has come from `peer`.
    ///
    /// A credit grant that is applied adds to the send budget, which stops
    /// at the largest number it can hold; where the budget was used up and
    /// the grant allows anything, the host is to be told that sending can
    /// resume. An application request of a connected peer takes one off the
    /// receive budget and shows that the last grant has arrived; where the
    /// budget is used up, the host is to be told that the peer exceeds it.
    pub open spec fn on_request(self, peer: MultihashView, header: Header) -> State {
        match header.typ {
            Type::Credit => if self.applies(peer, header) {
                let info = self.peers[peer];
                let amount = Self::amount(header);
                State {
                    peers: self.peers.insert(
                        peer,
                        PeerInfo {
                            send_budget: info.send_budget.saturating_add(amount),
                            send_budget_id: header.ident,
                            ..info
                        },
                    ),
                    events: if info.send_budget == 0 && amount > 0 {
                        self.events.push(Notice::ResumeSending(peer))
                    } else {
                        self.events
                    },
                    ..self
                }
            } else {
                self
            },
            Type::Request => if self.exceeds(peer) {
                State { events: self.events.push(Notice::TooManyInboundRequests(peer)), ..self }
            } else if self.peers.contains_key(peer) {
                let info = self.peers[peer];
                State {
                    peers: self.peers.insert(
                        peer,
                        PeerInfo { recv_budget: (info.recv_budget - 1) as u16, ..info },
                    ),
                    credits: self.credits.remove(peer),
                    ..self
                }
            } else {
                self
            },
            _ => self,
        }
    }

    /// Whether the request that failed carried the grant under way to
    /// `peer`, which is then sent again.
    pub open spec fn resends_on_failure(self, peer: MultihashView, request: RequestId) -> bool {
        self.credits.contains_key(peer) && self.credits[peer].request == Some(request)
    }

    /// The state after the request `request` to `peer` has failed.
    pub open spec fn on_outbound_failure(self, peer: MultihashView, request: RequestId) -> State {
        if self.resends_on_failure(peer, request) {
            self.resubmit(peer)
        } else {
            self
        }
    }

    /// The state after the host reported that it submitted the grant `id`
    /// to `peer` as the request `request`. A report of a grant that is no
    /// longer under way changes nothing.
    pub open spec fn credit_submitted(
        self,
        peer: MultihashView,
        id: u64,
        request: RequestId,
    ) -> State {
        if self.credits.contains_key(peer) && self.credits[peer].id == id {
            State {
                credits: self.credits.insert(
                    peer,
                    Credit { request: Some(request), ..self.credits[peer] },
                ),
                ..self
            }
        } else {
            self
        }
    }

    /// What becomes of a response with `header`: an application response
    /// that has its payload is delivered, anything else is dropped.
    pub open spec fn response_verdict(header: Header, has_payload: bool) -> Verdict {
        if header.typ == Type::Response && has_payload {
            Verdict::Deliver
        } else {
            Verdict::Drop
        }
    }

    /// What becomes of a request with `header` from `peer`. A credit grant
    /// that names its id is acked, applied or not. An application request is
    /// delivered if the peer has credit for it and the payload is there.
    /// Anything else is dropped.
    pub open spec fn request_verdict(
        self,
        peer: MultihashView,
        header: Header,
        has_payload: bool,
    ) -> Verdict {
        match header.typ {
            Type::Credit => match header.ident {
                Some(ident) => Verdict::Ack { ident },
                None => Verdict::Drop,
            },
            Type::Request => if !self.exceeds(peer) && has_payload {
                Verdict::Deliver
            } else {
                Verdict::Drop
            },
            _ => Verdict::Drop,
        }
    }

    /// The grant under way to `peer`, as it is handed to the host again.
    pub open spec fn resent(self, peer: MultihashView) -> Grant {
        self.credits[peer].grant()
    }

    /// Whether the host may send to `peer`: nothing is known against it.
    pub open spec fn can_send(self, peer: MultihashView) -> bool {
        self.peers.contains_key(peer) ==> self.peers[peer].send_budget > 0
    }

    /// What the host is told next, if anything.
    pub open spec fn pending_event(self) -> Option<Notice> {
        if self.events.len() > 0 {
            Some(self.events[0])
        } else {
            None
        }
    }

    /// The state after the host took the first of what it is to be told.
    pub open spec fn next_event(self) -> State {
        if self.events.len() > 0 {
            State { events: self.events.drop_first(), ..self }
        } else {
            self
        }
    }
}

/// A call of the host, or something that the transport reports.
pub enum Input {
    /// The host asks to send a request to the peer.
    SendRequest(MultihashView),
    /// The host answers a request of the peer.
    SendResponse(MultihashView),
    /// The host sets the default limit.
    SetReceiveLimit(u16),
    /// The host sets the limit of the peer alone.
    OverrideReceiveLimit(MultihashView, u16),
    /// The host withdraws the limit of the peer alone.
    RemoveOverride(MultihashView),
    /// The peer has connected.
    Connected(MultihashView),
    /// The last connection to the peer is gone.
    Disconnected(MultihashView),
    /// A connection to the peer has closed; whether another is left.
    ConnectionClosed(MultihashView, bool),
    /// A response with this header has come from the peer.
    Response(MultihashView, Header),
    /// A request with this header has come from the peer.
    Request(MultihashView, Header),
    /// The request to the peer has failed.
    OutboundFailure(MultihashView, RequestId),
    /// The grant with this id went out to the peer as the request.
    CreditSubmitted(MultihashView, u64, RequestId),
    /// The host takes the next event.
    NextEvent,
}

impl Input {
    /// Whether the host may make this call: a limit is at least one.
    pub open spec fn allowed(self) -> bool {
        match self {
            Input::SetReceiveLimit(limit) => limit >= 1,
            Input::OverrideReceiveLimit(_, limit) => limit >= 1,
            _ => true,
        }
    }
}

impl State {
    /// The state after `input`.
    pub open spec fn step(self, input: Input) -> State {
        match input {
            Input::SendRequest(peer) => self.send_request(peer),
            Input::SendResponse(peer) => self.send_response(peer),
            Input::SetReceiveLimit(limit) => self.set_receive_limit(limit),
            Input::OverrideReceiveLimit(peer, limit) => self.override_receive_limit(peer, limit),
            Input::RemoveOverride(peer) => self.remove_override(peer),
            Input::Connected(peer) => self.locate(peer),
            Input::Disconnected(peer) => self.disconnected(peer),
            Input::ConnectionClosed(peer, still_connected) => self.connection_closed(
                peer,
                still_connected,
            ),
            Input::Response(peer, header) => self.on_response(peer, header),
            Input::Request(peer, header) => self.on_request(peer, header),
            Input::OutboundFailure(peer, request) => self.on_outbound_failure(peer, request),
            Input::CreditSubmitted(peer, id, request) => self.credit_submitted(peer, id, request),
            Input::NextEvent => self.next_event(),
        }
    }

    /// The state after all of `inputs`, in their order.
    pub open spec fn run(self, inputs: Seq<Input>) -> State
        decreases inputs.len(),
    {
        if inputs.len() == 0 {
            self
        } else {
            self.run(inputs.drop_last()).step(inputs.last())
        }
    }

    /// The state in which the input at place `k` of `inputs` finds the
    /// throttle.
    pub open spec fn before(self, inputs: Seq<Input>, k: int) -> State {
        self.run(inputs.take(k))
    }

    /// The new grant that `input` brings about, and the peer it goes to.
    /// Grants that are handed out again are not new.
    pub open spec fn issues(self, input: Input) -> Option<(MultihashView, Grant)> {
        match input {
            Input::SendRequest(peer) | Input::Connected(peer) => match self.locate_grant(peer) {
                Some(grant) => Some((peer, grant)),
                None => None,
            },
            Input::SendResponse(peer) => match self.response_grant(peer) {
                Some(grant) => Some((peer, grant)),
                None => None,
            },
            _ => None,
        }
    }

    /// Whether `input` is an application request of `peer` that is let in.
    pub open spec fn accepts(self, input: Input, peer: MultihashView) -> bool {
        input matches Input::Request(from, header) && from == peer && header.typ == Type::Request
            && !self.exceeds(peer)
    }

    /// Whether `input` puts the notice that sending to `peer` can resume
    /// at the end of what the host is to be told.
    pub open spec fn announces_resume(self, input: Input, peer: MultihashView) -> bool {
        self.step(input).events == self.events.push(Notice::ResumeSending(peer))
    }
}

} // verus!
