//! A topic-based publish/subscribe broker with per-subscriber delivery
//! tracking, together with the client-side reliable request/reply protocol
//! ("Lazy Pirate") that publishers and subscribers use to talk to it.
//!
//! The broker's in-memory state machine lives in [`registry`], [`queue`] and
//! [`broker`]; the wire framing and the decimal nonce codec live in [`codec`];
//! the client-side retry and reply-validation logic lives in [`channel`].

pub mod broker;
pub mod channel;
pub mod codec;
pub mod errors;
pub mod ids;
pub mod queue;
pub mod registry;
