//! The broker's per-endpoint handlers: the state machine the event loop
//! drives.
//!
//! Each handler takes one decoded request and mutates the registry or the
//! queue; the event loop (outside this library) receives the frames, hands
//! them to the `*_frames` handlers here, sends the reply back, then runs
//! [`Broker::sweep`] and persists whichever store a handler reported as
//! changed.

use crate::codec::{dec_repr, dec_to_u64, format_u64, parse_u64, utf8_decode};
use crate::errors::AckError;
use crate::ids::lemma_ids_set_len;
use crate::queue::{
    first_pending, has_pending, lemma_first_pending_pending, lemma_live_members, live_msgs,
    msgs_at, q_map, q_nodup, q_sweep_post, q_uniq, restored_q, strip_id, MessageModel, QEntry,
    Queue,
};
use crate::registry::{
    reg_map, reg_nodup, reg_sweep_post, reg_uniq, restored_reg, subs_at, RegEntry, Registry,
};
use vstd::prelude::*;
use vstd::utf8::{decode_utf8, encode_utf8, valid_utf8};

verus! {

/// The broker's whole mutable state: who subscribes to what, and what is
/// still owed to whom.
pub struct Broker {
    pub registry: Registry,
    pub queue: Queue,
}

/// The byte texts of a frame list.
pub open spec fn frame_views(f: Seq<Vec<u8>>) -> Seq<Seq<u8>> {
    Seq::new(f.len(), |i: int| f[i]@)
}

/// The publish request a frame list denotes — `[topic, body, nonce]`, all
/// UTF-8 text, the nonce decimal — or nothing for a malformed request.
pub open spec fn publish_request(f: Seq<Seq<u8>>) -> Option<(Seq<char>, Seq<char>, u64)> {
    if f.len() == 3 && valid_utf8(f[0]) && valid_utf8(f[1]) && valid_utf8(f[2]) {
        match dec_to_u64(decode_utf8(f[2])) {
            Option::Some(n) => Option::Some((decode_utf8(f[0]), decode_utf8(f[1]), n)),
            Option::None => Option::None,
        }
    } else {
        Option::None
    }
}

/// The subscriber command a frame list denotes — `[id, operation, topic]`,
/// all UTF-8 text — or nothing for a malformed request.
pub open spec fn command_request(f: Seq<Seq<u8>>) -> Option<(Seq<char>, Seq<char>, Seq<char>)> {
    if f.len() == 3 && valid_utf8(f[0]) && valid_utf8(f[1]) && valid_utf8(f[2]) {
        Option::Some((decode_utf8(f[0]), decode_utf8(f[1]), decode_utf8(f[2])))
    } else {
        Option::None
    }
}

/// The acknowledgment request a frame list denotes — `[id, nonce, topic]`,
/// all UTF-8 text, the nonce decimal — or nothing for a malformed request.
/// The nonce is parsed at the boundary but not validated against the queue.
pub open spec fn gc_request(f: Seq<Seq<u8>>) -> Option<(Seq<char>, u64, Seq<char>)> {
    if f.len() == 3 && valid_utf8(f[0]) && valid_utf8(f[1]) && valid_utf8(f[2]) {
        match dec_to_u64(decode_utf8(f[1])) {
            Option::Some(n) => Option::Some((decode_utf8(f[0]), n, decode_utf8(f[2]))),
            Option::None => Option::None,
        }
    } else {
        Option::None
    }
}

/// A one-frame list with the given text.
pub open spec fn frames1(r: Seq<String>, a: Seq<char>) -> bool {
    r.len() == 1 && r[0]@ == a
}

/// A two-frame list with the given texts.
pub open spec fn frames2(r: Seq<String>, a: Seq<char>, b: Seq<char>) -> bool {
    r.len() == 2 && r[0]@ == a && r[1]@ == b
}

/// A three-frame list with the given texts.
pub open spec fn frames3(r: Seq<String>, a: Seq<char>, b: Seq<char>, c: Seq<char>) -> bool {
    r.len() == 3 && r[0]@ == a && r[1]@ == b && r[2]@ == c
}

/// The frames a Get reply carries: `[nonce, body]` on success, and
/// `[id, "-1", reason]` for each failure.
pub open spec fn get_reply_frames(r: Seq<String>, id: Seq<char>, g: GetReply) -> bool {
    match g {
        GetReply::TopicMissing => frames3(r, id, "-1"@, "Topic does not exist"@),
        GetReply::NotSubscribed => frames3(r, id, "-1"@, "Not subscribed"@),
        GetReply::NoMessages => frames3(r, id, "-1"@, "No new messages"@),
        GetReply::NoneForId => frames3(r, id, "-1"@, "No new messages to send"@),
        GetReply::Message(n, b) => frames2(r, dec_repr(n as nat), b),
    }
}

/// How a subscriber command relates the state after to the state before,
/// and the reply it owes, by operation: `subscribe` and `unsubscribe`
/// mutate the registry (the latter also purges the queue) and echo the
/// identifier; `get` answers from the state without changing it; anything
/// else is refused with `[id, "-1", "Unknown Operation"]` and changes
/// nothing.
pub open spec fn command_post(
    reg0: Map<Seq<char>, Set<Seq<char>>>,
    reg1: Map<Seq<char>, Set<Seq<char>>>,
    q0: Map<Seq<char>, Seq<MessageModel>>,
    q1: Map<Seq<char>, Seq<MessageModel>>,
    id: Seq<char>,
    op: Seq<char>,
    topic: Seq<char>,
    reply: Seq<String>,
    reg_changed: bool,
    q_changed: bool,
) -> bool {
    if op == "subscribe"@ {
        &&& frames1(reply, id)
        &&& subscribe_post(reg0, reg1, topic, id, reg_changed)
        &&& q1 == q0
        &&& !q_changed
    } else if op == "unsubscribe"@ {
        &&& frames1(reply, id)
        &&& unsubscribe_reg_post(reg0, reg1, topic, id, reg_changed)
        &&& unsubscribe_q_post(q0, q1, id, q_changed)
    } else if op == "get"@ {
        &&& get_reply_frames(reply, id, spec_get(reg0, q0, id, topic))
        &&& reg1 == reg0
        &&& q1 == q0
        &&& !reg_changed
        &&& !q_changed
    } else {
        &&& frames3(reply, id, "-1"@, "Unknown Operation"@)
        &&& reg1 == reg0
        &&& q1 == q0
        &&& !reg_changed
        &&& !q_changed
    }
}

/// How a publish relates the queue after to the queue before: with at least
/// one subscriber on the topic the message is appended, owed to exactly the
/// current subscribers; with none, nothing is stored.
pub open spec fn publish_post(
    reg: Map<Seq<char>, Set<Seq<char>>>,
    q0: Map<Seq<char>, Seq<MessageModel>>,
    q1: Map<Seq<char>, Seq<MessageModel>>,
    topic: Seq<char>,
    body: Seq<char>,
    nonce: u64,
    stored: bool,
) -> bool {
    &&& stored == (reg.contains_key(topic) && reg[topic] != Set::<Seq<char>>::empty())
    &&& stored ==> q1 == q0.insert(
        topic,
        msgs_at(q0, topic).push((MessageModel { nonce, body, pending: reg[topic] })),
    )
    &&& !stored ==> q1 == q0
}

/// How a subscribe relates the registry after to the registry before.
pub open spec fn subscribe_post(
    r0: Map<Seq<char>, Set<Seq<char>>>,
    r1: Map<Seq<char>, Set<Seq<char>>>,
    topic: Seq<char>,
    id: Seq<char>,
    changed: bool,
) -> bool {
    &&& r1 == r0.insert(topic, subs_at(r0, topic).insert(id))
    &&& changed == !(r0.contains_key(topic) && r0[topic].contains(id))
}

/// How an unsubscribe relates the registry after to the registry before:
/// the identifier leaves the topic's set; the key stays until the sweep.
pub open spec fn unsubscribe_reg_post(
    r0: Map<Seq<char>, Set<Seq<char>>>,
    r1: Map<Seq<char>, Set<Seq<char>>>,
    topic: Seq<char>,
    id: Seq<char>,
    changed: bool,
) -> bool {
    &&& r0.contains_key(topic) ==> r1 == r0.insert(topic, r0[topic].remove(id))
    &&& !r0.contains_key(topic) ==> r1 == r0
    &&& changed == (r0.contains_key(topic) && r0[topic].contains(id))
}

/// How an unsubscribe relates the queue after to the queue before: the
/// identifier is purged from every pending set, across all topics.
pub open spec fn unsubscribe_q_post(
    q0: Map<Seq<char>, Seq<MessageModel>>,
    q1: Map<Seq<char>, Seq<MessageModel>>,
    id: Seq<char>,
    changed: bool,
) -> bool {
    &&& q1.dom() == q0.dom()
    &&& forall|k: Seq<char>| #[trigger] q0.contains_key(k) ==> q1[k] == strip_id(q0[k], id)
    &&& changed == exists|k: Seq<char>| #[trigger] q0.contains_key(k) && has_pending(q0[k], id)
}

/// How an acknowledgment relates the queue after to the queue before: it
/// succeeds exactly when the topic has queued messages, and then removes
/// the identifier from the pending set of the *head* message.
pub open spec fn ack_post(
    q0: Map<Seq<char>, Seq<MessageModel>>,
    q1: Map<Seq<char>, Seq<MessageModel>>,
    topic: Seq<char>,
    id: Seq<char>,
    ok: bool,
    changed: bool,
) -> bool {
    &&& ok == (q0.contains_key(topic) && q0[topic].len() > 0)
    &&& !ok ==> q1 == q0
    &&& ok ==> changed == q0[topic][0].pending.contains(id) && q1 == q0.insert(
        topic,
        q0[topic].update(
            0,
            (MessageModel {
                nonce: q0[topic][0].nonce,
                body: q0[topic][0].body,
                pending: q0[topic][0].pending.remove(id),
            }),
        ),
    )
}

/// What a Get request is answered with, in the order the broker validates:
/// unknown topic, then membership, then queued messages, then a message
/// still pending for the identifier.
pub ghost enum GetReply {
    TopicMissing,
    NotSubscribed,
    NoMessages,
    NoneForId,
    Message(u64, Seq<char>),
}

/// The Get reply the broker owes for the given state and request.
pub open spec fn spec_get(
    reg: Map<Seq<char>, Set<Seq<char>>>,
    q: Map<Seq<char>, Seq<MessageModel>>,
    id: Seq<char>,
    topic: Seq<char>,
) -> GetReply {
    if !reg.contains_key(topic) {
        GetReply::TopicMissing
    } else if !reg[topic].contains(id) {
        GetReply::NotSubscribed
    } else if !(q.contains_key(topic) && q[topic].len() > 0) {
        GetReply::NoMessages
    } else {
        match first_pending(q[topic], id) {
            Option::None => GetReply::NoneForId,
            Option::Some(m) => GetReply::Message(m.nonce, m.body),
        }
    }
}

/// The outcome of a Get request, with the failure reasons the broker
/// reports as error replies.
pub enum GetOutcome {
    TopicMissing,
    NotSubscribed,
    NoMessages,
    NoneForId,
    Message(u64, String),
}

/// The mathematical content of a Get outcome.
pub open spec fn outcome_model(r: GetOutcome) -> GetReply {
    match r {
        GetOutcome::TopicMissing => GetReply::TopicMissing,
        GetOutcome::NotSubscribed => GetReply::NotSubscribed,
        GetOutcome::NoMessages => GetReply::NoMessages,
        GetOutcome::NoneForId => GetReply::NoneForId,
        GetOutcome::Message(n, b) => GetReply::Message(n, b@),
    }
}

impl Broker {
    /// Both stores keep their representation invariants.
    pub open spec fn wf(&self) -> bool {
        self.registry.wf() && self.queue.wf()
    }

    /// A broker with no subscriptions and no pending messages.
    pub fn new() -> (b: Broker)
        ensures
            b.wf(),
            b.registry@ == Map::<Seq<char>, Set<Seq<char>>>::empty(),
            b.queue@ == Map::<Seq<char>, Seq<MessageModel>>::empty(),
    {
        Broker { registry: Registry::new(), queue: Queue::new() }
    }

    /// A broker restored from the two persisted snapshots; a snapshot that
    /// breaks the representation invariants restores that store to empty,
    /// as an unparseable snapshot would.
    pub fn from_snapshots(rs: Vec<RegEntry>, qs: Vec<QEntry>) -> (b: Broker)
        ensures
            b.wf(),
            b.registry@ == restored_reg(rs@),
            b.queue@ == restored_q(qs@),
    {
        Broker { registry: Registry::from_snapshot(rs), queue: Queue::from_snapshot(qs) }
    }

    /// Copies of both stores' contents, for the persistence sidecar.
    pub fn to_snapshots(&self) -> (r: (Vec<RegEntry>, Vec<QEntry>))
        requires
            self.wf(),
        ensures
            reg_uniq(r.0@) && reg_nodup(r.0@) && reg_map(r.0@) == self.registry@,
            q_uniq(r.1@) && q_nodup(r.1@) && q_map(r.1@) == self.queue@,
    {
        (self.registry.to_snapshot(), self.queue.to_snapshot())
    }

    /// Publish endpoint: with no subscribers on the topic the broker acks
    /// at once and stores nothing; otherwise it snapshots the topic's
    /// subscribers and enqueues the message for exactly them. The reply is
    /// the nonce's decimal text, always.
    pub fn handle_publish(&mut self, topic: &String, body: String, nonce: u64) -> (r: (
        String,
        bool,
    ))
        requires
            old(self).wf(),
        ensures
            final(self).wf(),
            final(self).registry@ == old(self).registry@,
            r.0@ == dec_repr(nonce as nat),
            publish_post(
                old(self).registry@,
                old(self).queue@,
                final(self).queue@,
                topic@,
                body@,
                nonce,
                r.1,
            ),
    {
        let ack = format_u64(nonce);
        match self.registry.subscribers_of(topic) {
            None => (ack, false),
            Some(subs) => {
                proof {
                    lemma_ids_set_len(subs@);
                }
                if subs.is_empty() {
                    (ack, false)
                } else {
                    self.queue.enqueue(topic, body, nonce, subs);
                    (ack, true)
                }
            },
        }
    }

    /// Subscribe command: idempotent insert into the topic's set.
    pub fn handle_subscribe(&mut self, id: &String, topic: &String) -> (changed: bool)
        requires
            old(self).wf(),
        ensures
            final(self).wf(),
            final(self).queue@ == old(self).queue@,
            subscribe_post(old(self).registry@, final(self).registry@, topic@, id@, changed),
    {
        self.registry.subscribe(topic, id)
    }

    /// Unsubscribe command: idempotent removal from the topic's set, and a
    /// purge of the identifier from every pending set across all topics.
    /// Reports (registry changed, queue changed).
    pub fn handle_unsubscribe(&mut self, id: &String, topic: &String) -> (r: (bool, bool))
        requires
            old(self).wf(),
        ensures
            final(self).wf(),
            unsubscribe_reg_post(old(self).registry@, final(self).registry@, topic@, id@, r.0),
            unsubscribe_q_post(old(self).queue@, final(self).queue@, id@, r.1),
    {
        let reg_changed = self.registry.unsubscribe(topic, id);
        let q_changed = self.queue.remove_id(id);
        (reg_changed, q_changed)
    }

    /// Get command: validates in order — the topic must exist, the
    /// identifier must be subscribed, the topic must have queued messages,
    /// and some message must still be pending for the identifier — and on
    /// success returns the nonce and body of the first such message.
    pub fn handle_get(&self, id: &String, topic: &String) -> (r: GetOutcome)
        requires
            self.wf(),
        ensures
            outcome_model(r) == spec_get(self.registry@, self.queue@, id@, topic@),
    {
        if !self.registry.contains_topic(topic) {
            return GetOutcome::TopicMissing;
        }
        if !self.registry.is_subscribed(topic, id) {
            return GetOutcome::NotSubscribed;
        }
        if !self.queue.has_messages(topic) {
            return GetOutcome::NoMessages;
        }
        match self.queue.first_pending_for(topic, id) {
            None => GetOutcome::NoneForId,
            Some((nonce, body)) => GetOutcome::Message(nonce, body),
        }
    }

    /// Acknowledgment endpoint: removes the identifier from the head
    /// message's pending set; fails when the topic has no queued messages.
    /// On success reports whether the head actually changed.
    pub fn handle_gc_ack(&mut self, id: &String, topic: &String) -> (r: Result<bool, AckError>)
        requires
            old(self).wf(),
        ensures
            final(self).wf(),
            final(self).registry@ == old(self).registry@,
            r is Ok <==> (old(self).queue@.contains_key(topic@) && old(self).queue@[topic@].len()
                > 0),
            r is Err ==> final(self).queue@ == old(self).queue@,
            r matches Ok(changed) ==> ack_post(
                old(self).queue@,
                final(self).queue@,
                topic@,
                id@,
                true,
                changed,
            ),
    {
        self.queue.acknowledge_head(topic, id)
    }

    /// The end-of-iteration sweep: drops empty subscriber sets, fully
    /// acknowledged messages, and emptied topics.
    pub fn sweep(&mut self)
        requires
            old(self).wf(),
        ensures
            final(self).wf(),
            reg_sweep_post(old(self).registry@, final(self).registry@),
            q_sweep_post(old(self).queue@, final(self).queue@),
    {
        self.registry.sweep();
        self.queue.sweep();
    }

    /// Publish endpoint on raw frames: decodes `[topic, body, nonce]`,
    /// dispatches to [`Broker::handle_publish`], and echoes the nonce text
    /// as the ack. A malformed request gets the `"-1"` error frame and
    /// changes nothing, rather than taking the broker down.
    pub fn handle_publish_frames(&mut self, frames: &Vec<Vec<u8>>) -> (r: (Vec<String>, bool))
        requires
            old(self).wf(),
        ensures
            final(self).wf(),
            final(self).registry@ == old(self).registry@,
            publish_request(frame_views(frames@)) matches Some(req) ==> frames1(
                r.0@,
                decode_utf8(frames@[2]@),
            ) && publish_post(
                old(self).registry@,
                old(self).queue@,
                final(self).queue@,
                req.0,
                req.1,
                req.2,
                r.1,
            ),
            publish_request(frame_views(frames@)) is None ==> frames1(r.0@, "-1"@) && final(self).queue@ == old(self).queue@ && !r.1,
    {
        if frames.len() != 3 {
            return (error_reply(), false);
        }
        let topic = match utf8_decode(&frames[0]) {
            Some(s) => s,
            None => {
                return (error_reply(), false);
            },
        };
        let body = match utf8_decode(&frames[1]) {
            Some(s) => s,
            None => {
                return (error_reply(), false);
            },
        };
        let nonce_text = match utf8_decode(&frames[2]) {
            Some(s) => s,
            None => {
                return (error_reply(), false);
            },
        };
        let nonce = match parse_u64(nonce_text.as_str()) {
            Some(n) => n,
            None => {
                return (error_reply(), false);
            },
        };
        let (_ack, stored) = self.handle_publish(&topic, body, nonce);
        let mut reply: Vec<String> = Vec::new();
        reply.push(nonce_text);
        (reply, stored)
    }

    /// Command endpoint on raw frames: decodes `[id, operation, topic]` and
    /// dispatches on the operation — `subscribe`, `unsubscribe` or `get`.
    /// An unknown operation gets `[id, "-1", "Unknown Operation"]` and
    /// changes nothing; a malformed request gets the `"-1"` error frame.
    /// Reports (reply, registry changed, queue changed).
    pub fn handle_command_frames(&mut self, frames: &Vec<Vec<u8>>) -> (r: (Vec<String>, bool, bool))
        requires
            old(self).wf(),
        ensures
            final(self).wf(),
            command_request(frame_views(frames@)) is None ==> frames1(r.0@, "-1"@) && final(self).registry@ == old(self).registry@ && final(self).queue@ == old(self).queue@ && !r.1
                && !r.2,
            command_request(frame_views(frames@)) matches Some(req) ==> command_post(
                old(self).registry@,
                final(self).registry@,
                old(self).queue@,
                final(self).queue@,
                req.0,
                req.1,
                req.2,
                r.0@,
                r.1,
                r.2,
            ),
    {
        if frames.len() != 3 {
            return (error_reply(), false, false);
        }
        let id = match utf8_decode(&frames[0]) {
            Some(s) => s,
            None => {
                return (error_reply(), false, false);
            },
        };
        let operation = match utf8_decode(&frames[1]) {
            Some(s) => s,
            None => {
                return (error_reply(), false, false);
            },
        };
        let topic = match utf8_decode(&frames[2]) {
            Some(s) => s,
            None => {
                return (error_reply(), false, false);
            },
        };
        if operation == String::from_str("subscribe") {
            let changed = self.handle_subscribe(&id, &topic);
            let mut reply: Vec<String> = Vec::new();
            reply.push(id);
            (reply, changed, false)
        } else if operation == String::from_str("unsubscribe") {
            let (reg_changed, q_changed) = self.handle_unsubscribe(&id, &topic);
            let mut reply: Vec<String> = Vec::new();
            reply.push(id);
            (reply, reg_changed, q_changed)
        } else if operation == String::from_str("get") {
            match self.handle_get(&id, &topic) {
                GetOutcome::TopicMissing => (
                    get_error_reply(id, "Topic does not exist"),
                    false,
                    false,
                ),
                GetOutcome::NotSubscribed => (get_error_reply(id, "Not subscribed"), false, false),
                GetOutcome::NoMessages => (get_error_reply(id, "No new messages"), false, false),
                GetOutcome::NoneForId => (
                    get_error_reply(id, "No new messages to send"),
                    false,
                    false,
                ),
                GetOutcome::Message(nonce, body) => {
                    let mut reply: Vec<String> = Vec::new();
                    reply.push(format_u64(nonce));
                    reply.push(body);
                    (reply, false, false)
                },
            }
        } else {
            (get_error_reply(id, "Unknown Operation"), false, false)
        }
    }

    /// Acknowledgment endpoint on raw frames: decodes `[id, nonce, topic]`
    /// and acknowledges the topic's head message for the identifier. A
    /// topic with no queued messages gets the `"-1"` abort frame — the
    /// client treats that as nothing to acknowledge — as does a malformed
    /// request.
    pub fn handle_gc_frames(&mut self, frames: &Vec<Vec<u8>>) -> (r: (Vec<String>, bool))
        requires
            old(self).wf(),
        ensures
            final(self).wf(),
            final(self).registry@ == old(self).registry@,
            gc_request(frame_views(frames@)) is None ==> frames1(r.0@, "-1"@) && final(self).queue@
                == old(self).queue@ && !r.1,
            gc_request(frame_views(frames@)) matches Some(req) ==> (old(self).queue@.contains_key(
                req.2,
            ) && old(self).queue@[req.2].len() > 0 ==> frames1(r.0@, req.0) && ack_post(
                old(self).queue@,
                final(self).queue@,
                req.2,
                req.0,
                true,
                r.1,
            )),
            gc_request(frame_views(frames@)) matches Some(req) ==> (!(old(self).queue@.contains_key(req.2) && old(self).queue@[req.2].len() > 0) ==> frames1(
                r.0@,
                "-1"@,
            ) && final(self).queue@ == old(self).queue@ && !r.1),
    {
        if frames.len() != 3 {
            return (error_reply(), false);
        }
        let id = match utf8_decode(&frames[0]) {
            Some(s) => s,
            None => {
                return (error_reply(), false);
            },
        };
        let nonce_text = match utf8_decode(&frames[1]) {
            Some(s) => s,
            None => {
                return (error_reply(), false);
            },
        };
        let topic = match utf8_decode(&frames[2]) {
            Some(s) => s,
            None => {
                return (error_reply(), false);
            },
        };
        match parse_u64(nonce_text.as_str()) {
            Some(_) => (),
            None => {
                return (error_reply(), false);
            },
        };
        match self.handle_gc_ack(&id, &topic) {
            Err(_) => (error_reply(), false),
            Ok(changed) => {
                let mut reply: Vec<String> = Vec::new();
                reply.push(id);
                (reply, changed)
            },
        }
    }
}

/// Law: publishing to a topic with no subscribers stores nothing — the
/// queue is untouched — while the ack is owed regardless: the reply of
/// [`Broker::handle_publish`] never depends on the subscriber set.
pub proof fn lemma_no_subscriber_fast_ack(
    reg: Map<Seq<char>, Set<Seq<char>>>,
    q0: Map<Seq<char>, Seq<MessageModel>>,
    q1: Map<Seq<char>, Seq<MessageModel>>,
    topic: Seq<char>,
    body: Seq<char>,
    nonce: u64,
    stored: bool,
)
    requires
        publish_post(reg, q0, q1, topic, body, nonce, stored),
        !reg.contains_key(topic) || reg[topic] == Set::<Seq<char>>::empty(),
    ensures
        !stored,
        q1 == q0,
{
}

/// Law: fan-out is a snapshot. A message published while `c` was not
/// subscribed is never owed to `c`: its pending set excludes `c`, and a Get
/// returns only messages pending for the caller, so `c`'s Get can never
/// return it — however late `c` subscribes, since a subscribe leaves the
/// queue unchanged (see [`Broker::handle_subscribe`]).
pub proof fn lemma_fanout_snapshot(
    reg: Map<Seq<char>, Set<Seq<char>>>,
    q0: Map<Seq<char>, Seq<MessageModel>>,
    q1: Map<Seq<char>, Seq<MessageModel>>,
    topic: Seq<char>,
    body: Seq<char>,
    nonce: u64,
    c: Seq<char>,
    stored: bool,
)
    requires
        publish_post(reg, q0, q1, topic, body, nonce, stored),
        stored,
        !subs_at(reg, topic).contains(c),
    ensures
        q1.contains_key(topic),
        q1[topic].len() > 0,
        !q1[topic].last().pending.contains(c),
        first_pending(q1[topic], c) matches Some(m) ==> m != q1[topic].last(),
{
    assert(q1[topic] == msgs_at(q0, topic).push(
        (MessageModel { nonce, body, pending: reg[topic] }),
    ));
    lemma_first_pending_pending(q1[topic], c);
}

/// Law: delivery tracking is independent per recipient. Before the head
/// message is acknowledged by `a`, a Get by `a` and a Get by `b` both find
/// it; after `a`'s acknowledgment, `a` is no longer owed it while `b`'s Get
/// still finds the same nonce and body.
pub proof fn lemma_per_recipient_independence(
    q0: Map<Seq<char>, Seq<MessageModel>>,
    q1: Map<Seq<char>, Seq<MessageModel>>,
    topic: Seq<char>,
    a: Seq<char>,
    b: Seq<char>,
    changed: bool,
)
    requires
        a != b,
        q0.contains_key(topic),
        q0[topic].len() > 0,
        q0[topic][0].pending.contains(a),
        q0[topic][0].pending.contains(b),
        ack_post(q0, q1, topic, a, true, changed),
    ensures
        first_pending(q0[topic], a) == Some(q0[topic][0]),
        first_pending(q0[topic], b) == Some(q0[topic][0]),
        q1.contains_key(topic),
        q1[topic].len() == q0[topic].len(),
        !q1[topic][0].pending.contains(a),
        q1[topic][0].pending.contains(b),
        q1[topic][0].nonce == q0[topic][0].nonce,
        q1[topic][0].body == q0[topic][0].body,
        first_pending(q1[topic], b) == Some(q1[topic][0]),
{
}

/// Law: once every recipient a message was snapshotted for has
/// acknowledged it, the message does not survive the next sweep, and when
/// it was the topic's only message the topic key vanishes with it.
pub proof fn lemma_full_consumption(
    q0: Map<Seq<char>, Seq<MessageModel>>,
    q1: Map<Seq<char>, Seq<MessageModel>>,
    q2: Map<Seq<char>, Seq<MessageModel>>,
    topic: Seq<char>,
    id: Seq<char>,
    changed: bool,
)
    requires
        q0.contains_key(topic),
        q0[topic].len() > 0,
        q0[topic][0].pending.remove(id) == Set::<Seq<char>>::empty(),
        ack_post(q0, q1, topic, id, true, changed),
        q_sweep_post(q1, q2),
    ensures
        q2.contains_key(topic) ==> !q2[topic].contains(q1[topic][0]),
        q0[topic].len() == 1 ==> !q2.contains_key(topic),
{
    let dead = q1[topic][0];
    assert(dead.pending == Set::<Seq<char>>::empty());
    if q2.contains_key(topic) {
        assert(q2[topic] == live_msgs(q1[topic]));
        lemma_live_members(q1[topic], dead);
    }
    if q0[topic].len() == 1 {
        assert(q1[topic].len() == 1);
        assert(q1[topic].drop_last() =~= Seq::<MessageModel>::empty());
        assert(q1[topic].last() == dead);
        assert(live_msgs(Seq::<MessageModel>::empty()) =~= Seq::<MessageModel>::empty());
        assert(live_msgs(q1[topic]).len() == 0);
    }
}

/// Law: an unsubscribed client is never waited on. After the queue purge
/// of an unsubscribe, no pending set anywhere contains the identifier;
/// messages keep their nonce and body; and a message the identifier was
/// the last recipient of is left with an empty pending set, gone at the
/// next sweep.
pub proof fn lemma_unsubscribe_purges(
    q0: Map<Seq<char>, Seq<MessageModel>>,
    q1: Map<Seq<char>, Seq<MessageModel>>,
    id: Seq<char>,
    changed: bool,
    k: Seq<char>,
    j: int,
)
    requires
        unsubscribe_q_post(q0, q1, id, changed),
        q0.contains_key(k),
        0 <= j < q0[k].len(),
    ensures
        q1.contains_key(k),
        q1[k].len() == q0[k].len(),
        !q1[k][j].pending.contains(id),
        q1[k][j].nonce == q0[k][j].nonce,
        q1[k][j].body == q0[k][j].body,
        q0[k][j].pending.remove(id) == Set::<Seq<char>>::empty() ==> q1[k][j].pending == Set::<
            Seq<char>,
        >::empty(),
{
    assert(q1.dom().contains(k));
    assert(q1[k] == strip_id(q0[k], id));
    assert(q1[k][j] == strip_id(q0[k], id)[j]);
}

/// Law: subscribing is idempotent. A second subscribe of the same
/// identifier to the same topic leaves the registry exactly as the first
/// left it, and reports no change.
pub proof fn lemma_idempotent_subscribe(
    r0: Map<Seq<char>, Set<Seq<char>>>,
    r1: Map<Seq<char>, Set<Seq<char>>>,
    r2: Map<Seq<char>, Set<Seq<char>>>,
    topic: Seq<char>,
    id: Seq<char>,
    c1: bool,
    c2: bool,
)
    requires
        subscribe_post(r0, r1, topic, id, c1),
        subscribe_post(r1, r2, topic, id, c2),
    ensures
        r2 == r1,
        !c2,
{
    assert(r1.contains_key(topic));
    assert(r1[topic].contains(id));
    assert(subs_at(r1, topic).insert(id) =~= r1[topic]);
    assert(r2 =~= r1);
}

/// Law: persistence round-trips. A snapshot taken from well-formed stores
/// restores to exactly the views it was taken from: `to_snapshots` yields
/// entry lists that satisfy these premises and denote the live views, and
/// `from_snapshots` yields the restored views stated here.
pub proof fn lemma_snapshot_roundtrip(rs: Seq<RegEntry>, qs: Seq<QEntry>)
    requires
        reg_uniq(rs),
        reg_nodup(rs),
        q_uniq(qs),
        q_nodup(qs),
    ensures
        restored_reg(rs) == reg_map(rs),
        restored_q(qs) == q_map(qs),
{
}

/// Law: the publish wire round-trips. A request framed as the client
/// frames it — topic, body, and the nonce's decimal text, each carried as
/// its UTF-8 bytes — parses on the broker side to exactly the topic, body
/// and nonce the client put in.
pub proof fn lemma_publish_wire_roundtrip(topic: Seq<char>, body: Seq<char>, nonce: u64)
    ensures
        publish_request(
            seq![
                encode_utf8(topic),
                encode_utf8(body),
                encode_utf8(dec_repr(nonce as nat)),
            ],
        ) == Some((topic, body, nonce)),
{
    broadcast use vstd::utf8::encode_utf8_valid_utf8, vstd::utf8::encode_utf8_decode_utf8;

    crate::codec::lemma_dec_repr_roundtrip(nonce);
}

/// Law: the command wire round-trips. A subscriber command framed as the
/// client frames it parses on the broker side to exactly the identifier,
/// operation name and topic the client put in.
pub proof fn lemma_command_wire_roundtrip(id: Seq<char>, op: Seq<char>, topic: Seq<char>)
    ensures
        command_request(seq![encode_utf8(id), encode_utf8(op), encode_utf8(topic)]) == Some(
            (id, op, topic),
        ),
{
    broadcast use vstd::utf8::encode_utf8_valid_utf8, vstd::utf8::encode_utf8_decode_utf8;

}

/// Law: the acknowledgment wire round-trips. An acknowledgment framed as
/// the client frames it parses on the broker side to exactly the
/// identifier, nonce and topic the client put in.
pub proof fn lemma_gc_wire_roundtrip(id: Seq<char>, nonce: u64, topic: Seq<char>)
    ensures
        gc_request(
            seq![encode_utf8(id), encode_utf8(dec_repr(nonce as nat)), encode_utf8(topic)],
        ) == Some((id, nonce, topic)),
{
    broadcast use vstd::utf8::encode_utf8_valid_utf8, vstd::utf8::encode_utf8_decode_utf8;

    crate::codec::lemma_dec_repr_roundtrip(nonce);
}

/// The one-frame `"-1"` reply for malformed or unserviceable requests.
fn error_reply() -> (r: Vec<String>)
    ensures
        frames1(r@, "-1"@),
{
    let mut reply: Vec<String> = Vec::new();
    reply.push(String::from_str("-1"));
    reply
}

/// The `[id, "-1", reason]` error reply of the Get operation.
fn get_error_reply(id: String, reason: &str) -> (r: Vec<String>)
    ensures
        frames3(r@, id@, "-1"@, reason@),
{
    let mut reply: Vec<String> = Vec::new();
    reply.push(id);
    reply.push(String::from_str("-1"));
    reply.push(String::from_str(reason));
    reply
}

} // verus!
