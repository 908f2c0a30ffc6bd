//! Error types shared by the broker and the client-side channel.

use vstd::prelude::*;

verus! {

/// Failures a client call can end in.
///
/// Transport failures (`UnreachableBroker`) are reported only after the
/// reliable channel has exhausted its retries; protocol violations
/// (`EmptyReply`, `MalformedReply`) and stale correlation tokens
/// (`InvalidAck`, `InvalidNonce`) abort the call at once; an error reply
/// from the broker itself surfaces as `InvalidStateBroker`.
#[derive(Clone, Copy, Debug, PartialEq, Eq, Structural)]
pub enum PubSubError {
    InvalidArgCount,
    InvalidMethodType,
    EmptyReply,
    MalformedReply,
    InvalidNonce,
    InvalidAck,
    InvalidStateBroker,
    UnreachableBroker,
}

/// Failure of a queue acknowledgment: the topic had no queued messages.
#[derive(Clone, Copy, Debug, PartialEq, Eq, Structural)]
pub enum AckError {
    NotFound,
}

} // verus!
