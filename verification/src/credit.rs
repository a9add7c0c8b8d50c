//! Credit grants and the record of the one that is under way.

use vstd::prelude::*;

verus! {

/// The identifier that the transport gives to a request it has taken.
#[derive(Clone, Copy, Debug, PartialEq, Eq, Hash, Structural)]
pub struct RequestId(pub u64);

/// A credit grant for the host to submit to a peer as a request: the
/// peer may send `amount` more requests. `id` tells grants apart, so that a
/// grant that arrives twice is applied once.
#[derive(Clone, Copy, Debug, PartialEq, Eq, Structural)]
pub struct Grant {
    pub id: u64,
    pub amount: u16,
}

/// A credit grant that has not been confirmed by the peer.
#[derive(Clone, Copy, Debug, PartialEq, Eq, Structural)]
pub struct Credit {
    /// The credit id, by which the peer drops copies of the grant.
    pub id: u64,
    /// The transport request that carries the grant at present; `None` from
    /// the moment the grant is handed to the host until the host reports
    /// the request it was submitted as.
    pub request: Option<RequestId>,
    /// The number of requests the peer is allowed to send.
    pub amount: u16,
}

impl Credit {
    /// The grant that this record awaits confirmation of.
    pub open spec fn grant(&self) -> Grant {
        Grant { id: self.id, amount: self.amount }
    }
}

} // verus!
