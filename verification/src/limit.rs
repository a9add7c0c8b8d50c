//! Receive limits and the budget record kept for each peer.

use vstd::prelude::*;

verus! {

/// How many inbound requests a peer may have outstanding.
///
/// `max_recv` is the limit in force, `next_max` the one that takes its place
/// the next time credit is granted.
#[derive(Clone, Copy, Debug, PartialEq, Eq, Structural)]
pub struct Limit {
    pub max_recv: u16,
    pub next_max: u16,
}

impl Limit {
    /// Both limits admit at least one request.
    pub open spec fn wf(&self) -> bool {
        self.max_recv >= 1 && self.next_max >= 1
    }

    /// A limit of `max` that comes into force with the first grant.
    ///
    /// Until then the limit is one: the first request of a peer is always
    /// let in, and answering it is what sends the grant. A larger start
    /// would leave the sender waiting for a grant that nothing triggers.
    pub fn new(max: u16) -> (limit: Limit)
        requires
            max >= 1,
        ensures
            limit.max_recv == 1,
            limit.next_max == max,
            limit.wf(),
    {
        Limit { max_recv: 1, next_max: max }
    }

    /// Sets the limit that the next grant will advertise.
    pub fn set(&mut self, next: u16)
        requires
            next >= 1,
        ensures
            final(self).max_recv == old(self).max_recv,
            final(self).next_max == next,
    {
        self.next_max = next;
    }

    /// Puts the pending limit in force and returns it.
    pub fn switch(&mut self) -> (max: u16)
        ensures
            max == old(self).next_max,
            final(self).max_recv == old(self).next_max,
            final(self).next_max == old(self).next_max,
    {
        self.max_recv = self.next_max;
        self.max_recv
    }
}

/// Budget information about a peer.
#[derive(Clone, Copy, Debug, PartialEq, Eq, Structural)]
pub struct PeerInfo {
    /// Limit that applies to this peer.
    pub limit: Limit,
    /// Remaining number of outbound requests that can be sent.
    pub send_budget: u16,
    /// Remaining number of inbound requests that can be received.
    pub recv_budget: u16,
    /// The id of the credit grant that last raised `send_budget`.
    pub send_budget_id: Option<u64>,
}

impl PeerInfo {
    /// The limit admits a request, and no more requests are awaited than
    /// the limit in force allows.
    pub open spec fn wf(&self) -> bool {
        self.limit.wf() && self.recv_budget <= self.limit.max_recv
    }

    /// What is known of a peer before anything was exchanged with it: one
    /// request may be sent, one may be received, no credit was applied.
    pub open spec fn fresh(limit: Limit) -> PeerInfo {
        PeerInfo { limit, send_budget: 1, recv_budget: 1, send_budget_id: None }
    }

    /// The record of a peer that nothing was exchanged with yet.
    pub fn new(limit: Limit) -> (info: PeerInfo)
        ensures
            info == PeerInfo::fresh(limit),
    {
        PeerInfo { limit, send_budget: 1, recv_budget: 1, send_budget_id: None }
    }
}

} // verus!
