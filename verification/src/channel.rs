//! The client side of the protocol: the "Lazy Pirate" reliable
//! request/reply pattern — bounded retry with reconnect-on-timeout — and
//! validation of the broker's replies against the expected correlation
//! token.
//!
//! The transport work (connecting, sending, polling) lives outside this
//! library; the decisions live here. A caller drives one request as a
//! small state machine: while [`RetryState::can_attempt`] it opens a fresh
//! connection, sends the request frames and waits; a timeout is fed to
//! [`RetryState::record_timeout`], which either grants another attempt or
//! declares the broker unreachable; a reply is fed to the validation
//! function for the request's kind, whose verdict is final.

use crate::broker::frames3;
use crate::codec::{
    dec_repr, dec_to_u64, format_u64, lossy_decode, parse_u64, utf8_decode, utf8_lossy,
};
use crate::errors::PubSubError;
use vstd::prelude::*;
use vstd::utf8::{decode_utf8, valid_utf8};

verus! {

/// The three operations of the subscriber-command endpoint.
#[derive(Clone, Copy, Debug, PartialEq, Eq, Structural)]
pub enum SubOperation {
    Subscribe,
    Unsubscribe,
    Get,
}

/// The operation's name on the wire.
pub open spec fn spec_wire_name(op: SubOperation) -> Seq<char> {
    match op {
        SubOperation::Subscribe => "subscribe"@,
        SubOperation::Unsubscribe => "unsubscribe"@,
        SubOperation::Get => "get"@,
    }
}

impl SubOperation {
    /// The operation's name on the wire.
    pub fn wire_name(&self) -> (s: String)
        ensures
            s@ == spec_wire_name(*self),
    {
        match self {
            SubOperation::Subscribe => String::from_str("subscribe"),
            SubOperation::Unsubscribe => String::from_str("unsubscribe"),
            SubOperation::Get => String::from_str("get"),
        }
    }
}

/// The retry bookkeeping of one reliable request: how many attempts are
/// still allowed, and how many were made.
pub struct RetryState {
    pub retries_left: u32,
    pub attempts_made: u32,
}

/// The bookkeeping stays within its budget: the counters cannot overflow.
pub open spec fn retry_wf(s: RetryState) -> bool {
    s.attempts_made + s.retries_left <= u32::MAX
}

/// One attempt that ended in a timeout: the attempt is counted and the
/// retry budget shrinks by one.
pub open spec fn spec_timeout(s: RetryState) -> RetryState {
    RetryState {
        retries_left: (s.retries_left - 1) as u32,
        attempts_made: (s.attempts_made + 1) as u32,
    }
}

/// The state after a run against an endpoint that never answers: every
/// attempt times out, until the budget is exhausted.
pub open spec fn timeout_run(s: RetryState) -> RetryState
    decreases s.retries_left,
{
    if s.retries_left == 0 {
        s
    } else {
        timeout_run(spec_timeout(s))
    }
}

/// Law: retry is bounded and exact. Against an endpoint that never
/// answers, a request with a budget of `retries_left` attempts makes
/// exactly that many attempts — one send per timeout — and then gives up
/// (whereupon the caller fails with `UnreachableBroker`); the run cannot
/// continue past that, since the budget strictly shrinks.
pub proof fn lemma_retry_exhaustion(s: RetryState)
    requires
        retry_wf(s),
    ensures
        timeout_run(s).retries_left == 0,
        timeout_run(s).attempts_made == s.attempts_made + s.retries_left,
    decreases s.retries_left,
{
    if s.retries_left > 0 {
        lemma_retry_exhaustion(spec_timeout(s));
    }
}

impl RetryState {
    /// A fresh request with the given retry budget.
    pub fn new(max_retries: u32) -> (s: RetryState)
        ensures
            retry_wf(s),
            s.retries_left == max_retries,
            s.attempts_made == 0,
    {
        RetryState { retries_left: max_retries, attempts_made: 0 }
    }

    /// Whether another attempt (connect, send, wait) may be made.
    pub fn can_attempt(&self) -> (r: bool)
        ensures
            r == (self.retries_left > 0),
    {
        self.retries_left > 0
    }

    /// Records that the pending attempt timed out. Returns whether the
    /// caller must give up and report the broker unreachable.
    pub fn record_timeout(&mut self) -> (give_up: bool)
        requires
            retry_wf(*old(self)),
            old(self).retries_left > 0,
        ensures
            retry_wf(*final(self)),
            *final(self) == spec_timeout(*old(self)),
            give_up == (final(self).retries_left == 0),
    {
        self.attempts_made = self.attempts_made + 1;
        self.retries_left = self.retries_left - 1;
        self.retries_left == 0
    }
}

/// Validates a reply envelope: the frame count must match the expected
/// shape — else the reply is malformed — and the leading frame's text must
/// equal the expected correlation token, which rejects stale replies left
/// over from an earlier attempt.
pub fn check_ack(rep: &Vec<Vec<u8>>, envlp_size: usize, token: &String) -> (r: Result<
    String,
    PubSubError,
>)
    ensures
        rep@.len() != envlp_size || envlp_size == 0 ==> r == Err::<String, PubSubError>(
            PubSubError::MalformedReply,
        ),
        rep@.len() == envlp_size && envlp_size > 0 && lossy_decode(rep@[0]@) == token@ ==> (
        r matches Ok(v) && v@ == token@),
        rep@.len() == envlp_size && envlp_size > 0 && lossy_decode(rep@[0]@) != token@ ==> r
            == Err::<String, PubSubError>(PubSubError::InvalidAck),
{
    if rep.len() != envlp_size || envlp_size == 0 {
        return Err(PubSubError::MalformedReply);
    }
    let val = utf8_lossy(&rep[0]);
    if val == *token {
        Ok(val)
    } else {
        Err(PubSubError::InvalidAck)
    }
}

/// Interprets the publish ack: one reply frame holding the decimal text of
/// the nonce that was sent. A frame that is not UTF-8 counts as an empty
/// reply; text that is no decimal number is malformed; a number other than
/// the sent nonce is a stale ack.
pub fn check_publish_reply(reply: &Vec<u8>, nonce: u64) -> (r: Result<(), PubSubError>)
    ensures
        !valid_utf8(reply@) ==> r == Err::<(), PubSubError>(PubSubError::EmptyReply),
        valid_utf8(reply@) && dec_to_u64(decode_utf8(reply@)) is None ==> r == Err::<
            (),
            PubSubError,
        >(PubSubError::MalformedReply),
        valid_utf8(reply@) ==> (dec_to_u64(decode_utf8(reply@)) matches Some(n) ==> (if n == nonce {
            r is Ok
        } else {
            r == Err::<(), PubSubError>(PubSubError::InvalidNonce)
        })),
{
    let text = match utf8_decode(reply) {
        Some(s) => s,
        None => {
            return Err(PubSubError::EmptyReply);
        },
    };
    let recv_nonce = match parse_u64(text.as_str()) {
        Some(n) => n,
        None => {
            return Err(PubSubError::MalformedReply);
        },
    };
    if recv_nonce != nonce {
        Err(PubSubError::InvalidNonce)
    } else {
        Ok(())
    }
}

/// Interprets the reply to a Get: `[nonce, body]` on success, and
/// `[id, "-1", reason]` for the broker's typed rejection, which is a
/// terminal error for the call, not retried. A rejection whose leading
/// frame is not the caller's identifier is a stale reply.
pub fn check_get_reply(rep: &Vec<Vec<u8>>, id: &String) -> (r: Result<(u64, String), PubSubError>)
    ensures
        rep@.len() == 2 && valid_utf8(rep@[0]@) ==> (dec_to_u64(decode_utf8(rep@[0]@)) matches Some(
            n,
        ) ==> (r matches Ok(p) && p.0 == n && p.1@ == lossy_decode(rep@[1]@))),
        rep@.len() == 2 && !(valid_utf8(rep@[0]@) && dec_to_u64(decode_utf8(rep@[0]@)) is Some)
            ==> r == Err::<(u64, String), PubSubError>(PubSubError::MalformedReply),
        rep@.len() == 3 ==> (if lossy_decode(rep@[1]@) != "-1"@ {
            r == Err::<(u64, String), PubSubError>(PubSubError::MalformedReply)
        } else if lossy_decode(rep@[0]@) == id@ {
            r == Err::<(u64, String), PubSubError>(PubSubError::InvalidStateBroker)
        } else {
            r == Err::<(u64, String), PubSubError>(PubSubError::InvalidAck)
        }),
        rep@.len() != 2 && rep@.len() != 3 ==> r == Err::<(u64, String), PubSubError>(
            PubSubError::MalformedReply,
        ),
{
    if rep.len() == 2 {
        let nonce_text = match utf8_decode(&rep[0]) {
            Some(s) => s,
            None => {
                return Err(PubSubError::MalformedReply);
            },
        };
        let nonce = match parse_u64(nonce_text.as_str()) {
            Some(n) => n,
            None => {
                return Err(PubSubError::MalformedReply);
            },
        };
        let body = utf8_lossy(&rep[1]);
        Ok((nonce, body))
    } else if rep.len() == 3 {
        let sentinel = utf8_lossy(&rep[1]);
        if !(sentinel == String::from_str("-1")) {
            return Err(PubSubError::MalformedReply);
        }
        let leading = utf8_lossy(&rep[0]);
        if leading == *id {
            Err(PubSubError::InvalidStateBroker)
        } else {
            Err(PubSubError::InvalidAck)
        }
    } else {
        Err(PubSubError::MalformedReply)
    }
}

/// Interprets the reply to an acknowledgment: one frame; the `-1` abort
/// sentinel means the broker had nothing to acknowledge — `Ok(false)`, not
/// a hard failure; the echoed identifier means done, `Ok(true)`; any other
/// text is a stale reply.
pub fn check_gc_reply(rep: &Vec<Vec<u8>>, id: &String) -> (r: Result<bool, PubSubError>)
    ensures
        rep@.len() != 1 ==> r == Err::<bool, PubSubError>(PubSubError::MalformedReply),
        rep@.len() == 1 ==> (if lossy_decode(rep@[0]@) == "-1"@ {
            r == Ok::<bool, PubSubError>(false)
        } else if lossy_decode(rep@[0]@) == id@ {
            r == Ok::<bool, PubSubError>(true)
        } else {
            r == Err::<bool, PubSubError>(PubSubError::InvalidAck)
        }),
{
    if rep.len() != 1 {
        return Err(PubSubError::MalformedReply);
    }
    let val = utf8_lossy(&rep[0]);
    if val == String::from_str("-1") {
        Ok(false)
    } else if val == *id {
        Ok(true)
    } else {
        Err(PubSubError::InvalidAck)
    }
}

/// The frames of a publish request: `[topic, body, nonce]`.
pub fn publish_frames(topic: &String, body: &String, nonce: u64) -> (r: Vec<String>)
    ensures
        frames3(r@, topic@, body@, dec_repr(nonce as nat)),
{
    let mut r: Vec<String> = Vec::new();
    r.push(topic.clone());
    r.push(body.clone());
    r.push(format_u64(nonce));
    r
}

/// The frames of a subscriber command: `[id, operation, topic]`.
pub fn command_frames(id: &String, op: SubOperation, topic: &String) -> (r: Vec<String>)
    ensures
        frames3(r@, id@, spec_wire_name(op), topic@),
{
    let mut r: Vec<String> = Vec::new();
    r.push(id.clone());
    r.push(op.wire_name());
    r.push(topic.clone());
    r
}

/// The frames of an acknowledgment request: `[id, nonce, topic]`, the
/// nonce being the one a preceding Get returned.
pub fn gc_frames(id: &String, nonce: u64, topic: &String) -> (r: Vec<String>)
    ensures
        frames3(r@, id@, dec_repr(nonce as nat), topic@),
{
    let mut r: Vec<String> = Vec::new();
    r.push(id.clone());
    r.push(format_u64(nonce));
    r.push(topic.clone());
    r
}

} // verus!
