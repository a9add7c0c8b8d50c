//! Per-peer request throttling for a request/response protocol.
//!
//! Each peer has a budget for sending and a budget for receiving requests.
//! A peer starts with a send budget of one. When the remote has used up what
//! it was allowed to send, the local side answers with a credit grant that
//! says how many more requests may follow. A grant is retried until an ack
//! or a fresh request from the peer shows that it arrived.
//!
//! The engine in [`throttle`] owns no connection: it decides, and the host
//! that drives the transport carries the decisions out.

pub mod action;
pub mod bytes;
pub mod credit;
pub mod hash;
pub mod laws;
pub mod limit;
pub mod message;
pub mod model;
pub mod offline;
pub mod peer_id;
pub mod peer_map;
pub mod throttle;
pub mod validity;
