//! What the engine asks of the host.

use crate::credit::Grant;
use vstd::prelude::*;

verus! {

/// The answer to a request to send: whether the request may go out, and a
/// grant that the host is to submit to the same peer before it.
#[derive(Clone, Copy, Debug, PartialEq, Eq, Structural)]
pub struct Sending {
    /// A credit grant to submit to the peer as a request.
    pub grant: Option<Grant>,
    /// Whether the application request may be submitted. Where it may not,
    /// the host keeps it until it is told that sending can resume.
    pub allowed: bool,
}

/// What becomes of a message that the transport has delivered.
#[derive(Clone, Copy, Debug, PartialEq, Eq, Structural)]
pub enum Verdict {
    /// The message goes on to the application, without its header.
    Deliver,
    /// Nothing comes of the message. A request gets no response.
    Drop,
    /// The message was a credit grant: it is answered with the ack of the
    /// grant `ident`, and goes no further.
    Ack { ident: u64 },
}

} // verus!
