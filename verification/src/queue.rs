//! The delivery queue: for each topic, the ordered pending messages and the
//! subscribers each one is still owed to.
//!
//! Abstractly a queue is a map from topic text to a sequence of
//! [`MessageModel`]s, [`q_map`]. A message leaves the queue only through
//! [`Queue::sweep`], once its pending set has become empty; a topic key
//! likewise leaves once its sequence has become empty.

use crate::errors::AckError;
use crate::ids::{clone_ids, find_id, ids_nodup, ids_set, lemma_ids_remove, lemma_ids_set_len};
use vstd::prelude::*;

verus! {

/// A published message still owed to some subscribers.
pub struct PendingMessage {
    /// The publisher-chosen correlation number of the publish request.
    pub nonce: u64,
    /// The message payload.
    pub body: String,
    /// The subscribers snapshotted at enqueue time and not yet acknowledged.
    pub pending: Vec<String>,
}

/// The mathematical content of a pending message.
pub ghost struct MessageModel {
    pub nonce: u64,
    pub body: Seq<char>,
    pub pending: Set<Seq<char>>,
}

impl View for PendingMessage {
    type V = MessageModel;

    open spec fn view(&self) -> MessageModel {
        MessageModel { nonce: self.nonce, body: self.body@, pending: ids_set(self.pending@) }
    }
}

/// One topic and its pending messages, oldest first.
pub struct QEntry {
    pub topic: String,
    pub msgs: Vec<PendingMessage>,
}

/// The delivery queue.
pub struct Queue {
    entries: Vec<QEntry>,
}

/// The models of a sequence of messages.
pub open spec fn msg_models(v: Seq<PendingMessage>) -> Seq<MessageModel> {
    Seq::new(v.len(), |i: int| v[i]@)
}

/// Every message's pending list is duplicate-free.
pub open spec fn msgs_nodup(v: Seq<PendingMessage>) -> bool {
    forall|i: int| 0 <= i < v.len() ==> ids_nodup(v[i].pending@)
}

/// Whether some entry carries the given topic text.
pub open spec fn q_has_key(s: Seq<QEntry>, k: Seq<char>) -> bool {
    exists|i: int| 0 <= i < s.len() && s[i].topic@ == k
}

/// No two entries carry the same topic text.
pub open spec fn q_uniq(s: Seq<QEntry>) -> bool {
    forall|i: int, j: int| 0 <= i < j < s.len() ==> s[i].topic@ != s[j].topic@
}

/// Every entry's messages have duplicate-free pending lists.
pub open spec fn q_nodup(s: Seq<QEntry>) -> bool {
    forall|i: int| 0 <= i < s.len() ==> msgs_nodup(s[i].msgs@)
}

/// The map a sequence of entries denotes.
pub open spec fn q_map(s: Seq<QEntry>) -> Map<Seq<char>, Seq<MessageModel>>
    decreases s.len(),
{
    if s.len() == 0 {
        Map::empty()
    } else {
        q_map(s.drop_last()).insert(s.last().topic@, msg_models(s.last().msgs@))
    }
}

/// The messages a queue view holds for a topic; empty for an unknown topic.
pub open spec fn msgs_at(m: Map<Seq<char>, Seq<MessageModel>>, k: Seq<char>) -> Seq<MessageModel> {
    if m.contains_key(k) {
        m[k]
    } else {
        Seq::empty()
    }
}

/// The first message in the sequence still pending for the identifier.
pub open spec fn first_pending(msgs: Seq<MessageModel>, id: Seq<char>) -> Option<MessageModel>
    decreases msgs.len(),
{
    if msgs.len() == 0 {
        None
    } else if msgs[0].pending.contains(id) {
        Some(msgs[0])
    } else {
        first_pending(msgs.drop_first(), id)
    }
}

/// Whether any message in the sequence is still pending for the identifier.
pub open spec fn has_pending(msgs: Seq<MessageModel>, id: Seq<char>) -> bool {
    exists|i: int| 0 <= i < msgs.len() && msgs[i].pending.contains(id)
}

/// The messages with the identifier removed from every pending set.
pub open spec fn strip_id(msgs: Seq<MessageModel>, id: Seq<char>) -> Seq<MessageModel> {
    Seq::new(
        msgs.len(),
        |i: int| (MessageModel {
            nonce: msgs[i].nonce,
            body: msgs[i].body,
            pending: msgs[i].pending.remove(id),
        }),
    )
}

/// The messages whose pending set is still non-empty, in order.
pub open spec fn live_msgs(msgs: Seq<MessageModel>) -> Seq<MessageModel>
    decreases msgs.len(),
{
    if msgs.len() == 0 {
        Seq::empty()
    } else {
        let rest = live_msgs(msgs.drop_last());
        if msgs.last().pending != Set::<Seq<char>>::empty() {
            rest.push(msgs.last())
        } else {
            rest
        }
    }
}

/// How a sweep relates the queue view after to the view before: fully
/// acknowledged messages are dropped, then topics left with no messages.
pub open spec fn q_sweep_post(
    m0: Map<Seq<char>, Seq<MessageModel>>,
    m1: Map<Seq<char>, Seq<MessageModel>>,
) -> bool {
    &&& forall|k: Seq<char>| #[trigger]
        m1.contains_key(k) <==> m0.contains_key(k) && live_msgs(m0[k]).len() > 0
    &&& forall|k: Seq<char>| #[trigger] m1.contains_key(k) ==> m1[k] == live_msgs(m0[k])
}

/// What restoring a queue snapshot yields: the denoted map when the
/// snapshot is well formed, the empty map otherwise.
pub open spec fn restored_q(s: Seq<QEntry>) -> Map<Seq<char>, Seq<MessageModel>> {
    if q_uniq(s) && q_nodup(s) {
        q_map(s)
    } else {
        Map::empty()
    }
}

/// A key is in the denoted map exactly when some entry carries it.
pub proof fn lemma_q_map_key(s: Seq<QEntry>, k: Seq<char>)
    ensures
        q_map(s).contains_key(k) <==> q_has_key(s, k),
    decreases s.len(),
{
    if s.len() > 0 {
        lemma_q_map_key(s.drop_last(), k);
        if s.last().topic@ == k {
            assert(s[s.len() - 1].topic@ == k);
        } else {
            if q_has_key(s.drop_last(), k) {
                let i = choose|i: int| 0 <= i < s.len() - 1 && s.drop_last()[i].topic@ == k;
                assert(s[i].topic@ == k);
            }
            if q_has_key(s, k) {
                let i = choose|i: int| 0 <= i < s.len() && s[i].topic@ == k;
                assert(i < s.len() - 1);
                assert(s.drop_last()[i].topic@ == k);
            }
        }
    }
}

/// With unique keys, the denoted map sends each entry's topic to the models
/// of that entry's messages.
pub proof fn lemma_q_map_at(s: Seq<QEntry>, i: int)
    requires
        q_uniq(s),
        0 <= i < s.len(),
    ensures
        q_map(s).contains_key(s[i].topic@),
        q_map(s)[s[i].topic@] == msg_models(s[i].msgs@),
    decreases s.len(),
{
    if i < s.len() - 1 {
        assert(s.drop_last()[i] == s[i]);
        lemma_q_map_at(s.drop_last(), i);
        assert(s.last().topic@ != s[i].topic@);
    }
}

/// Replacing an entry, topic kept, updates exactly that topic's messages.
pub proof fn lemma_q_map_update(s: Seq<QEntry>, i: int, e: QEntry)
    requires
        q_uniq(s),
        0 <= i < s.len(),
        e.topic@ == s[i].topic@,
    ensures
        q_map(s.update(i, e)) == q_map(s).insert(e.topic@, msg_models(e.msgs@)),
    decreases s.len(),
{
    let t = s.update(i, e);
    if i == s.len() - 1 {
        assert(t.drop_last() =~= s.drop_last());
        assert(t.last() == e);
        assert(q_map(t) =~= q_map(s).insert(e.topic@, msg_models(e.msgs@)));
    } else {
        assert(t.drop_last() =~= s.drop_last().update(i, e));
        assert(s.drop_last()[i] == s[i]);
        lemma_q_map_update(s.drop_last(), i, e);
        assert(t.last() == s.last());
        assert(s.last().topic@ != e.topic@);
        assert(q_map(t) =~= q_map(s).insert(e.topic@, msg_models(e.msgs@)));
    }
}

/// Appending an entry with a fresh topic adds exactly that key.
pub proof fn lemma_q_map_push(s: Seq<QEntry>, e: QEntry)
    ensures
        q_map(s.push(e)) == q_map(s).insert(e.topic@, msg_models(e.msgs@)),
{
    assert(s.push(e).drop_last() =~= s);
    assert(s.push(e).last() == e);
}

/// Removing an entry removes exactly its key from the denoted map.
pub proof fn lemma_q_map_remove(s: Seq<QEntry>, i: int)
    requires
        q_uniq(s),
        0 <= i < s.len(),
    ensures
        q_map(s.remove(i)) == q_map(s).remove(s[i].topic@),
    decreases s.len(),
{
    let t = s.remove(i);
    let k = s[i].topic@;
    if i == s.len() - 1 {
        assert(t =~= s.drop_last());
        lemma_q_map_key(t, k);
        assert(forall|j: int| 0 <= j < t.len() ==> t[j].topic@ != k);
        assert(!q_map(t).contains_key(k));
        assert(q_map(t).remove(k) =~= q_map(t));
        assert(q_map(s).remove(k) =~= q_map(t));
    } else {
        assert(t.drop_last() =~= s.drop_last().remove(i));
        assert(s.drop_last()[i] == s[i]);
        lemma_q_map_remove(s.drop_last(), i);
        assert(t.last() == s.last());
        assert(s.last().topic@ != k);
        assert(q_map(t) =~= q_map(s).remove(k));
    }
}

/// Entry sequences equal in topic text and message models denote the same
/// map.
pub proof fn lemma_q_map_congruent(a: Seq<QEntry>, b: Seq<QEntry>)
    requires
        a.len() == b.len(),
        forall|i: int| 0 <= i < a.len() ==> a[i].topic@ == b[i].topic@ && msg_models(a[i].msgs@)
            == msg_models(b[i].msgs@),
    ensures
        q_map(a) == q_map(b),
    decreases a.len(),
{
    if a.len() > 0 {
        assert(forall|i: int|
            0 <= i < a.len() - 1 ==> a.drop_last()[i].topic@ == b.drop_last()[i].topic@
                && msg_models(a.drop_last()[i].msgs@) == msg_models(b.drop_last()[i].msgs@));
        lemma_q_map_congruent(a.drop_last(), b.drop_last());
        assert(q_map(a) =~= q_map(b));
    }
}

/// Skipping a clean prefix does not change which message is first pending.
proof fn lemma_first_pending_skip(msgs: Seq<MessageModel>, id: Seq<char>, i: int)
    requires
        0 <= i <= msgs.len(),
        forall|j: int| 0 <= j < i ==> !msgs[j].pending.contains(id),
    ensures
        first_pending(msgs, id) == first_pending(msgs.skip(i), id),
    decreases i,
{
    if i > 0 {
        assert(!msgs[0].pending.contains(id));
        assert(first_pending(msgs, id) == first_pending(msgs.drop_first(), id));
        assert(msgs.drop_first() =~= msgs.skip(1));
        assert(forall|j: int| 0 <= j < i - 1 ==> !msgs.skip(1)[j].pending.contains(id));
        lemma_first_pending_skip(msgs.skip(1), id, i - 1);
        assert(msgs.skip(1).skip(i - 1) =~= msgs.skip(i));
    } else {
        assert(msgs.skip(0) =~= msgs);
    }
}

/// The first message pending for an identifier is the one a head-first scan
/// finds.
pub proof fn lemma_first_pending_found(msgs: Seq<MessageModel>, id: Seq<char>, i: int)
    requires
        0 <= i < msgs.len(),
        forall|j: int| 0 <= j < i ==> !msgs[j].pending.contains(id),
        msgs[i].pending.contains(id),
    ensures
        first_pending(msgs, id) == Some(msgs[i]),
{
    lemma_first_pending_skip(msgs, id, i);
    assert(msgs.skip(i)[0] == msgs[i]);
}

/// Whatever a head-first scan returns is indeed pending for the identifier.
pub proof fn lemma_first_pending_pending(msgs: Seq<MessageModel>, id: Seq<char>)
    ensures
        first_pending(msgs, id) matches Some(m) ==> m.pending.contains(id),
    decreases msgs.len(),
{
    if msgs.len() > 0 && !msgs[0].pending.contains(id) {
        lemma_first_pending_pending(msgs.drop_first(), id);
    }
}

/// Only messages of the sequence itself, with a non-empty pending set,
/// survive into its live part.
pub proof fn lemma_live_members(msgs: Seq<MessageModel>, m: MessageModel)
    ensures
        live_msgs(msgs).contains(m) ==> msgs.contains(m) && m.pending != Set::<Seq<char>>::empty(),
    decreases msgs.len(),
{
    if msgs.len() > 0 {
        lemma_live_members(msgs.drop_last(), m);
        if live_msgs(msgs).contains(m) {
            let rest = live_msgs(msgs.drop_last());
            if msgs.last().pending != Set::<Seq<char>>::empty() {
                let i = choose|i: int| 0 <= i < rest.push(msgs.last()).len() && rest.push(
                    msgs.last(),
                )[i] == m;
                if i < rest.len() {
                    assert(rest[i] == m);
                    assert(rest.contains(m));
                    let j = choose|j: int| 0 <= j < msgs.drop_last().len() && msgs.drop_last()[j]
                        == m;
                    assert(msgs[j] == m);
                } else {
                    assert(m == msgs.last());
                    assert(msgs[msgs.len() - 1] == m);
                }
            } else {
                let j = choose|j: int| 0 <= j < msgs.drop_last().len() && msgs.drop_last()[j] == m;
                assert(msgs[j] == m);
            }
        }
    }
}

/// A scan that found nothing means nothing is pending.
pub proof fn lemma_first_pending_none(msgs: Seq<MessageModel>, id: Seq<char>)
    requires
        forall|j: int| 0 <= j < msgs.len() ==> !msgs[j].pending.contains(id),
    ensures
        first_pending(msgs, id) is None,
{
    lemma_first_pending_skip(msgs, id, msgs.len() as int);
    assert(msgs.skip(msgs.len() as int) =~= Seq::<MessageModel>::empty());
}

impl View for Queue {
    type V = Map<Seq<char>, Seq<MessageModel>>;

    closed spec fn view(&self) -> Map<Seq<char>, Seq<MessageModel>> {
        q_map(self.entries@)
    }
}

impl Queue {
    /// Entries carry unique topics and duplicate-free pending lists.
    pub closed spec fn wf(&self) -> bool {
        q_uniq(self.entries@) && q_nodup(self.entries@)
    }

    /// An empty queue.
    pub fn new() -> (r: Queue)
        ensures
            r.wf(),
            r@ == Map::<Seq<char>, Seq<MessageModel>>::empty(),
    {
        Queue { entries: Vec::new() }
    }

    /// The position of the entry for a topic, if any.
    fn find_topic(&self, topic: &String) -> (r: Option<usize>)
        ensures
            r matches Some(i) ==> i < self.entries@.len() && self.entries@[i as int].topic@
                == topic@,
            r is None <==> !q_has_key(self.entries@, topic@),
    {
        let mut i: usize = 0;
        while i < self.entries.len()
            invariant
                i <= self.entries@.len(),
                forall|j: int| 0 <= j < i ==> self.entries@[j].topic@ != topic@,
            decreases self.entries@.len() - i,
        {
            if self.entries[i].topic == *topic {
                return Some(i);
            }
            i = i + 1;
        }
        None
    }

    /// Whether a topic has queued messages.
    pub fn has_messages(&self, topic: &String) -> (r: bool)
        requires
            self.wf(),
        ensures
            r == (self@.contains_key(topic@) && self@[topic@].len() > 0),
    {
        proof {
            lemma_q_map_key(self.entries@, topic@);
        }
        match self.find_topic(topic) {
            None => false,
            Some(i) => {
                proof {
                    lemma_q_map_at(self.entries@, i as int);
                }
                self.entries[i].msgs.len() > 0
            },
        }
    }

    /// Appends a message for a topic, owed to the given recipients; creates
    /// the topic entry if absent. Never fails.
    pub fn enqueue(&mut self, topic: &String, body: String, nonce: u64, recipients: Vec<String>)
        requires
            old(self).wf(),
            ids_nodup(recipients@),
        ensures
            final(self).wf(),
            final(self)@ == old(self)@.insert(
                topic@,
                msgs_at(old(self)@, topic@).push(
                    (MessageModel { nonce, body: body@, pending: ids_set(recipients@) }),
                ),
            ),
    {
        proof {
            lemma_q_map_key(self.entries@, topic@);
        }
        let msg = PendingMessage { nonce, body, pending: recipients };
        let ghost gm = msg@;
        match self.find_topic(topic) {
            None => {
                let ghost s0 = self.entries@;
                let mut msgs: Vec<PendingMessage> = Vec::new();
                msgs.push(msg);
                let entry = QEntry { topic: topic.clone(), msgs };
                let ghost ge = entry;
                self.entries.push(entry);
                proof {
                    lemma_q_map_push(s0, ge);
                    assert(msg_models(ge.msgs@) =~= Seq::<MessageModel>::empty().push(gm));
                    assert(msgs_at(q_map(s0), topic@) =~= Seq::<MessageModel>::empty());
                    assert forall|p: int, q: int|
                        0 <= p < q < self.entries@.len() implies self.entries@[p].topic@
                        != self.entries@[q].topic@ by {
                        if q == s0.len() as int {
                            assert(self.entries@[p] == s0[p]);
                        }
                    }
                    assert forall|p: int| 0 <= p < self.entries@.len() implies msgs_nodup(
                        self.entries@[p].msgs@,
                    ) by {
                        if p < s0.len() {
                            assert(self.entries@[p] == s0[p]);
                        }
                    }
                }
            },
            Some(i) => {
                proof {
                    lemma_q_map_at(self.entries@, i as int);
                }
                let ghost s0 = self.entries@;
                let mut e = self.entries.remove(i);
                e.msgs.push(msg);
                let ghost ge = e;
                self.entries.insert(i, e);
                proof {
                    assert(self.entries@ =~= s0.update(i as int, ge));
                    assert(ge.msgs@ == s0[i as int].msgs@.push(msg));
                    assert(msg_models(ge.msgs@) =~= msg_models(s0[i as int].msgs@).push(gm));
                    lemma_q_map_update(s0, i as int, ge);
                    assert forall|p: int, q: int|
                        0 <= p < q < self.entries@.len() implies self.entries@[p].topic@
                        != self.entries@[q].topic@ by {
                        assert(self.entries@[p].topic@ == s0[p].topic@);
                        assert(self.entries@[q].topic@ == s0[q].topic@);
                    }
                    assert forall|p: int| 0 <= p < self.entries@.len() implies msgs_nodup(
                        self.entries@[p].msgs@,
                    ) by {
                        if p != i as int {
                            assert(self.entries@[p] == s0[p]);
                        } else {
                            assert forall|m: int|
                                0 <= m < ge.msgs@.len() implies ids_nodup(ge.msgs@[m].pending@) by {
                                if m < s0[i as int].msgs@.len() {
                                    assert(ge.msgs@[m] == s0[i as int].msgs@[m]);
                                }
                            }
                        }
                    }
                }
            },
        }
    }

    /// The nonce and body of the first message still pending for the
    /// identifier on the topic: a head-first scan, not necessarily the head.
    pub fn first_pending_for(&self, topic: &String, id: &String) -> (r: Option<(u64, String)>)
        requires
            self.wf(),
        ensures
            r is Some <==> first_pending(msgs_at(self@, topic@), id@) is Some,
            r matches Some(p) ==> first_pending(msgs_at(self@, topic@), id@) matches Some(m)
                && p.0 == m.nonce && p.1@ == m.body,
    {
        proof {
            lemma_q_map_key(self.entries@, topic@);
        }
        match self.find_topic(topic) {
            None => {
                proof {
                    lemma_first_pending_none(msgs_at(self@, topic@), id@);
                }
                None
            },
            Some(i) => {
                proof {
                    lemma_q_map_at(self.entries@, i as int);
                    assert(msgs_at(self@, topic@) == msg_models(self.entries@[i as int].msgs@));
                }
                let msgs = &self.entries[i].msgs;
                let ghost models = msg_models(msgs@);
                proof {
                    assert(models == msgs_at(self@, topic@));
                }
                let mut j: usize = 0;
                while j < msgs.len()
                    invariant
                        j <= msgs@.len(),
                        models == msg_models(msgs@),
                        models == msgs_at(self@, topic@),
                        forall|p: int| 0 <= p < j ==> !models[p].pending.contains(id@),
                    decreases msgs@.len() - j,
                {
                    if find_id(&msgs[j].pending, id).is_some() {
                        proof {
                            assert(models[j as int].pending.contains(id@));
                            lemma_first_pending_found(models, id@, j as int);
                        }
                        return Some((msgs[j].nonce, msgs[j].body.clone()));
                    }
                    j = j + 1;
                }
                proof {
                    lemma_first_pending_none(models, id@);
                }
                None
            },
        }
    }

    /// Removes the identifier from the pending set of the *head* message of
    /// the topic — the protocol targets the queue head, not the message a
    /// preceding scan matched. Fails when the topic has no queued messages.
    /// On success reports whether the head actually changed.
    pub fn acknowledge_head(&mut self, topic: &String, id: &String) -> (r: Result<bool, AckError>)
        requires
            old(self).wf(),
        ensures
            final(self).wf(),
            r is Err <==> !(old(self)@.contains_key(topic@) && old(self)@[topic@].len() > 0),
            r is Err ==> final(self)@ == old(self)@,
            r matches Ok(changed) ==> changed == old(self)@[topic@][0].pending.contains(id@)
                && final(self)@ == old(self)@.insert(
                topic@,
                old(self)@[topic@].update(
                    0,
                    (MessageModel {
                        nonce: old(self)@[topic@][0].nonce,
                        body: old(self)@[topic@][0].body,
                        pending: old(self)@[topic@][0].pending.remove(id@),
                    }),
                ),
            ),
    {
        proof {
            lemma_q_map_key(self.entries@, topic@);
        }
        match self.find_topic(topic) {
            None => Err(AckError::NotFound),
            Some(i) => {
                proof {
                    lemma_q_map_at(self.entries@, i as int);
                }
                if self.entries[i].msgs.len() == 0 {
                    return Err(AckError::NotFound);
                }
                let ghost s0 = self.entries@;
                let ghost m0 = s0[i as int].msgs@[0]@;
                let mut e = self.entries.remove(i);
                let mut m = e.msgs.remove(0);
                let changed = match find_id(&m.pending, id) {
                    Some(j) => {
                        m.pending.remove(j);
                        proof {
                            lemma_ids_remove(s0[i as int].msgs@[0].pending@, j as int);
                        }
                        true
                    },
                    None => {
                        proof {
                            assert(!m0.pending.contains(id@));
                            assert(m0.pending.remove(id@) =~= m0.pending);
                        }
                        false
                    },
                };
                let ghost gm = m@;
                e.msgs.insert(0, m);
                let ghost ge = e;
                self.entries.insert(i, e);
                proof {
                    assert(gm.nonce == m0.nonce);
                    assert(gm.body == m0.body);
                    assert(gm.pending == m0.pending.remove(id@));
                    assert(ge.msgs@ =~= s0[i as int].msgs@.update(0, ge.msgs@[0]));
                    assert(msg_models(ge.msgs@) =~= msg_models(s0[i as int].msgs@).update(0, gm));
                    assert(self.entries@ =~= s0.update(i as int, ge));
                    lemma_q_map_update(s0, i as int, ge);
                    assert forall|p: int, q: int|
                        0 <= p < q < self.entries@.len() implies self.entries@[p].topic@
                        != self.entries@[q].topic@ by {
                        assert(self.entries@[p].topic@ == s0[p].topic@);
                        assert(self.entries@[q].topic@ == s0[q].topic@);
                    }
                    assert forall|p: int| 0 <= p < self.entries@.len() implies msgs_nodup(
                        self.entries@[p].msgs@,
                    ) by {
                        if p != i as int {
                            assert(self.entries@[p] == s0[p]);
                        } else {
                            assert forall|q: int|
                                0 <= q < ge.msgs@.len() implies ids_nodup(ge.msgs@[q].pending@) by {
                                if q > 0 {
                                    assert(ge.msgs@[q] == s0[i as int].msgs@[q]);
                                }
                            }
                        }
                    }
                }
                Ok(changed)
            },
        }
    }

    /// Purges an identifier from every message's pending set, across all
    /// topics; used when the identifier unsubscribes. Reports whether any
    /// pending set changed.
    pub fn remove_id(&mut self, id: &String) -> (changed: bool)
        requires
            old(self).wf(),
        ensures
            final(self).wf(),
            final(self)@.dom() == old(self)@.dom(),
            forall|k: Seq<char>| #[trigger] old(self)@.contains_key(k) ==> final(self)@[k]
                == strip_id(old(self)@[k], id@),
            changed == exists|k: Seq<char>| #[trigger] old(self)@.contains_key(k) && has_pending(
                old(self)@[k],
                id@,
            ),
    {
        let ghost s0 = self.entries@;
        let mut changed = false;
        let mut i: usize = 0;
        while i < self.entries.len()
            invariant
                q_uniq(s0),
                q_nodup(s0),
                i <= self.entries@.len(),
                self.entries@.len() == s0.len(),
                forall|p: int| 0 <= p < s0.len() ==> self.entries@[p].topic@ == s0[p].topic@,
                forall|p: int| 0 <= p < i ==> msg_models(self.entries@[p].msgs@) == strip_id(
                    msg_models(s0[p].msgs@),
                    id@,
                ) && msgs_nodup(self.entries@[p].msgs@),
                forall|p: int| i <= p < s0.len() ==> self.entries@[p] == s0[p],
                changed == exists|p: int| 0 <= p < i && has_pending(msg_models(s0[p].msgs@), id@),
            decreases self.entries@.len() - i,
        {
            let ghost vpre = self.entries@;
            let mut e = self.entries.remove(i);
            proof {
                assert(e == s0[i as int]);
                assert(msgs_nodup(s0[i as int].msgs@));
            }
            let c = strip_msgs(&mut e.msgs, id);
            let ghost ge = e;
            self.entries.insert(i, e);
            proof {
                assert(self.entries@ =~= vpre.update(i as int, ge));
                assert(ge.topic@ == s0[i as int].topic@);
                assert(msg_models(ge.msgs@) == strip_id(msg_models(s0[i as int].msgs@), id@));
            }
            if c {
                changed = true;
            }
            i = i + 1;
        }
        proof {
            assert forall|p: int, q: int|
                0 <= p < q < self.entries@.len() implies self.entries@[p].topic@
                != self.entries@[q].topic@ by {}
            assert forall|p: int| 0 <= p < self.entries@.len() implies msgs_nodup(
                self.entries@[p].msgs@,
            ) by {}
            assert forall|k: Seq<char>|
                q_map(self.entries@).contains_key(k) == q_map(s0).contains_key(k) by {
                lemma_q_map_key(self.entries@, k);
                lemma_q_map_key(s0, k);
                if q_has_key(s0, k) {
                    let j = choose|j: int| 0 <= j < s0.len() && s0[j].topic@ == k;
                    assert(self.entries@[j].topic@ == k);
                }
                if q_has_key(self.entries@, k) {
                    let j = choose|j: int|
                        0 <= j < self.entries@.len() && self.entries@[j].topic@ == k;
                    assert(s0[j].topic@ == k);
                }
            }
            assert(q_map(self.entries@).dom() =~= q_map(s0).dom());
            assert forall|k: Seq<char>| #[trigger] q_map(s0).contains_key(k) implies q_map(
                self.entries@,
            )[k] == strip_id(q_map(s0)[k], id@) by {
                lemma_q_map_key(s0, k);
                let j = choose|j: int| 0 <= j < s0.len() && s0[j].topic@ == k;
                lemma_q_map_at(s0, j);
                lemma_q_map_at(self.entries@, j);
            }
            assert(old(self)@ == q_map(s0));
            if changed {
                let p = choose|p: int|
                    0 <= p < s0.len() && has_pending(msg_models(s0[p].msgs@), id@);
                lemma_q_map_at(s0, p);
                lemma_q_map_key(s0, s0[p].topic@);
                assert(old(self)@.contains_key(s0[p].topic@) && has_pending(
                    old(self)@[s0[p].topic@],
                    id@,
                ));
            } else {
                assert(!(exists|k: Seq<char>| #[trigger] old(self)@.contains_key(k) && has_pending(
                    old(self)@[k],
                    id@,
                ))) by {
                    if exists|k: Seq<char>| #[trigger] old(self)@.contains_key(k) && has_pending(
                        old(self)@[k],
                        id@,
                    ) {
                        let k = choose|k: Seq<char>| #[trigger] old(self)@.contains_key(k)
                            && has_pending(old(self)@[k], id@);
                        lemma_q_map_key(s0, k);
                        let j = choose|j: int| 0 <= j < s0.len() && s0[j].topic@ == k;
                        lemma_q_map_at(s0, j);
                        assert(has_pending(msg_models(s0[j].msgs@), id@));
                    }
                }
            }
        }
        changed
    }

    /// Drops every message whose pending set became empty, then every topic
    /// whose message sequence became empty.
    pub fn sweep(&mut self)
        requires
            old(self).wf(),
        ensures
            final(self).wf(),
            q_sweep_post(old(self)@, final(self)@),
    {
        let ghost s0 = self.entries@;
        let mut i: usize = 0;
        while i < self.entries.len()
            invariant
                q_uniq(s0),
                q_nodup(s0),
                i <= self.entries@.len(),
                self.entries@.len() == s0.len(),
                forall|p: int| 0 <= p < s0.len() ==> self.entries@[p].topic@ == s0[p].topic@,
                forall|p: int| 0 <= p < i ==> msg_models(self.entries@[p].msgs@) == live_msgs(
                    msg_models(s0[p].msgs@),
                ) && msgs_nodup(self.entries@[p].msgs@),
                forall|p: int| i <= p < s0.len() ==> self.entries@[p] == s0[p],
            decreases self.entries@.len() - i,
        {
            let ghost vpre = self.entries@;
            let mut e = self.entries.remove(i);
            proof {
                assert(e == s0[i as int]);
                assert(msgs_nodup(s0[i as int].msgs@));
            }
            drop_done_msgs(&mut e.msgs);
            let ghost ge = e;
            self.entries.insert(i, e);
            proof {
                assert(self.entries@ =~= vpre.update(i as int, ge));
                assert(ge.topic@ == s0[i as int].topic@);
            }
            i = i + 1;
        }
        let ghost s1 = self.entries@;
        proof {
            assert forall|p: int, q: int| 0 <= p < q < s1.len() implies s1[p].topic@
                != s1[q].topic@ by {}
            assert forall|p: int| 0 <= p < s1.len() implies msgs_nodup(s1[p].msgs@) by {}
            assert forall|k: Seq<char>|
                q_map(s1).contains_key(k) == q_map(s0).contains_key(k) by {
                lemma_q_map_key(s1, k);
                lemma_q_map_key(s0, k);
                if q_has_key(s0, k) {
                    let j = choose|j: int| 0 <= j < s0.len() && s0[j].topic@ == k;
                    assert(s1[j].topic@ == k);
                }
                if q_has_key(s1, k) {
                    let j = choose|j: int| 0 <= j < s1.len() && s1[j].topic@ == k;
                    assert(s0[j].topic@ == k);
                }
            }
            assert forall|k: Seq<char>| #[trigger] q_map(s0).contains_key(k) implies q_map(s1)[k]
                == live_msgs(q_map(s0)[k]) by {
                lemma_q_map_key(s0, k);
                let j = choose|j: int| 0 <= j < s0.len() && s0[j].topic@ == k;
                lemma_q_map_at(s0, j);
                lemma_q_map_at(s1, j);
            }
        }
        let ghost m1 = q_map(self.entries@);
        let mut i2: usize = 0;
        while i2 < self.entries.len()
            invariant
                q_uniq(self.entries@),
                q_nodup(self.entries@),
                i2 <= self.entries@.len(),
                forall|j: int| 0 <= j < i2 ==> self.entries@[j].msgs@.len() > 0,
                forall|k: Seq<char>| #[trigger] q_map(self.entries@).contains_key(k)
                    ==> m1.contains_key(k) && q_map(self.entries@)[k] == m1[k],
                forall|k: Seq<char>|
                    m1.contains_key(k) && m1[k].len() > 0 ==> #[trigger] q_map(
                        self.entries@,
                    ).contains_key(k),
            decreases self.entries@.len() - i2,
        {
            if self.entries[i2].msgs.len() == 0 {
                let ghost spre = self.entries@;
                let ghost k = spre[i2 as int].topic@;
                proof {
                    lemma_q_map_at(spre, i2 as int);
                    assert(q_map(spre)[k].len() == 0);
                    lemma_q_map_remove(spre, i2 as int);
                }
                self.entries.remove(i2);
                proof {
                    spre.remove_ensures(i2 as int);
                    assert(self.entries@ == spre.remove(i2 as int));
                    assert(q_map(self.entries@) == q_map(spre).remove(k));
                    assert forall|p: int, q: int|
                        0 <= p < q < self.entries@.len() implies self.entries@[p].topic@
                        != self.entries@[q].topic@ by {
                        let p0 = if p < i2 as int { p } else { p + 1 };
                        let q0 = if q < i2 as int { q } else { q + 1 };
                        assert(self.entries@[p] == spre[p0]);
                        assert(self.entries@[q] == spre[q0]);
                    }
                    assert forall|j: int| 0 <= j < self.entries@.len() implies msgs_nodup(
                        self.entries@[j].msgs@,
                    ) by {
                        let j0 = if j < i2 as int { j } else { j + 1 };
                        assert(self.entries@[j] == spre[j0]);
                    }
                    assert forall|j: int| 0 <= j < i2 implies self.entries@[j].msgs@.len() > 0 by {
                        assert(self.entries@[j] == spre[j]);
                    }
                    assert forall|k2: Seq<char>|
                        m1.contains_key(k2) && m1[k2].len() > 0 implies #[trigger] q_map(
                            self.entries@,
                        ).contains_key(k2) by {
                        assert(q_map(spre).contains_key(k2));
                        if k2 == k {
                            assert(q_map(spre)[k] == m1[k]);
                        }
                    }
                }
            } else {
                i2 = i2 + 1;
            }
        }
        proof {
            assert forall|k: Seq<char>| #[trigger] q_map(self.entries@).contains_key(k) implies
                m1.contains_key(k) && m1[k].len() > 0 by {
                lemma_q_map_key(self.entries@, k);
                let j = choose|j: int|
                    0 <= j < self.entries@.len() && self.entries@[j].topic@ == k;
                lemma_q_map_at(self.entries@, j);
            }
            assert(old(self)@ == q_map(s0));
        }
    }

    /// A copy of the queue's contents, for the persistence sidecar.
    pub fn to_snapshot(&self) -> (s: Vec<QEntry>)
        requires
            self.wf(),
        ensures
            q_uniq(s@),
            q_nodup(s@),
            q_map(s@) == self@,
    {
        let mut s: Vec<QEntry> = Vec::new();
        let mut i: usize = 0;
        while i < self.entries.len()
            invariant
                q_uniq(self.entries@),
                q_nodup(self.entries@),
                i <= self.entries@.len(),
                s@.len() == i,
                forall|j: int| 0 <= j < i ==> s@[j].topic@ == self.entries@[j].topic@
                    && msg_models(s@[j].msgs@) == msg_models(self.entries@[j].msgs@)
                    && msgs_nodup(s@[j].msgs@),
            decreases self.entries@.len() - i,
        {
            let e = &self.entries[i];
            let copy = QEntry { topic: e.topic.clone(), msgs: clone_msgs(&e.msgs) };
            let ghost gc = copy;
            s.push(copy);
            proof {
                assert(msgs_nodup(self.entries@[i as int].msgs@));
                assert(msg_models(gc.msgs@) =~= msg_models(self.entries@[i as int].msgs@));
                assert forall|m: int| 0 <= m < gc.msgs@.len() implies ids_nodup(
                    gc.msgs@[m].pending@,
                ) by {
                    assert(gc.msgs@[m].pending@ == self.entries@[i as int].msgs@[m].pending@);
                }
            }
            i = i + 1;
        }
        proof {
            lemma_q_map_congruent(s@, self.entries@);
        }
        s
    }

    /// Rebuilds a queue from snapshot contents. A snapshot that breaks the
    /// representation invariants (duplicate topics or duplicate pending
    /// subscribers) counts as unparseable: the queue starts empty.
    pub fn from_snapshot(s: Vec<QEntry>) -> (r: Queue)
        ensures
            r.wf(),
            r@ == restored_q(s@),
    {
        let mut i: usize = 0;
        while i < s.len()
            invariant
                i <= s@.len(),
                forall|p: int, q: int| 0 <= p < q < i ==> s@[p].topic@ != s@[q].topic@,
                forall|p: int| 0 <= p < i ==> msgs_nodup(s@[p].msgs@),
            decreases s@.len() - i,
        {
            let mut j: usize = 0;
            while j < i
                invariant
                    j <= i,
                    i < s@.len(),
                    forall|q: int| 0 <= q < j ==> s@[q].topic@ != s@[i as int].topic@,
                decreases i - j,
            {
                if s[j].topic == s[i].topic {
                    return Queue { entries: Vec::new() };
                }
                j = j + 1;
            }
            let msgs = &s[i].msgs;
            let mut m: usize = 0;
            while m < msgs.len()
                invariant
                    m <= msgs@.len(),
                    msgs@ == s@[i as int].msgs@,
                    i < s@.len(),
                    forall|q: int| 0 <= q < m ==> ids_nodup(msgs@[q].pending@),
                decreases msgs@.len() - m,
            {
                if !crate::ids::ids_dup_free(&msgs[m].pending) {
                    return Queue { entries: Vec::new() };
                }
                m = m + 1;
            }
            i = i + 1;
        }
        Queue { entries: s }
    }
}

/// Drops every message whose pending set became empty, keeping order.
fn drop_done_msgs(v: &mut Vec<PendingMessage>)
    requires
        msgs_nodup(old(v)@),
    ensures
        msgs_nodup(final(v)@),
        msg_models(final(v)@) == live_msgs(msg_models(old(v)@)),
{
    let ghost orig = msg_models(v@);
    let mut i: usize = 0;
    let ghost mut p: int = 0;
    while i < v.len()
        invariant
            0 <= p <= orig.len(),
            i <= v@.len(),
            msgs_nodup(v@),
            i == live_msgs(orig.take(p)).len(),
            msg_models(v@) == live_msgs(orig.take(p)) + orig.skip(p),
        decreases v@.len() - i,
    {
        proof {
            assert(orig.skip(p).len() > 0);
            assert(msg_models(v@)[i as int] == orig.skip(p)[0]);
            assert(orig.skip(p)[0] == orig[p]);
            assert(orig.take(p + 1).drop_last() =~= orig.take(p));
            assert(orig.take(p + 1).last() == orig[p]);
        }
        if v[i].pending.is_empty() {
            proof {
                lemma_ids_set_len(v@[i as int].pending@);
                assert(v@[i as int]@.pending =~= Set::<Seq<char>>::empty());
                assert(orig[p].pending == Set::<Seq<char>>::empty());
                assert(live_msgs(orig.take(p + 1)) == live_msgs(orig.take(p)));
            }
            let ghost vpre = v@;
            proof {
                assert(msg_models(vpre) == live_msgs(orig.take(p)) + orig.skip(p));
                assert(msg_models(vpre).len() == vpre.len());
                assert(orig.skip(p).len() == orig.len() - p);
            }
            v.remove(i);
            proof {
                assert(v@ == vpre.remove(i as int));
                vpre.remove_ensures(i as int);
                assert(v@.len() == vpre.len() - 1);
                assert forall|q: int| 0 <= q < v@.len() implies ids_nodup(v@[q].pending@) by {
                    let q0 = if q < i as int { q } else { q + 1 };
                    assert(v@[q] == vpre[q0]);
                }
                let lv = live_msgs(orig.take(p));
                assert(msg_models(v@).len() == lv.len() + orig.skip(p + 1).len());
                assert forall|q: int| 0 <= q < v@.len() implies msg_models(v@)[q] == (lv
                    + orig.skip(p + 1))[q] by {
                    if q < i as int {
                        assert(v@[q] == vpre[q]);
                        assert(msg_models(vpre)[q] == lv[q]);
                    } else {
                        assert(v@[q] == vpre[q + 1]);
                        assert(msg_models(vpre)[q + 1] == orig.skip(p)[q + 1 - i]);
                        assert(orig.skip(p)[q + 1 - i] == orig[p + q + 1 - i]);
                        assert(orig.skip(p + 1)[q - i] == orig[p + 1 + q - i]);
                    }
                }
                assert(msg_models(v@) =~= lv + orig.skip(p + 1));
                assert(msg_models(v@) =~= live_msgs(orig.take(p + 1)) + orig.skip(p + 1));
                p = p + 1;
            }
        } else {
            proof {
                lemma_ids_set_len(v@[i as int].pending@);
                assert(v@[i as int].pending@.len() > 0);
                assert(orig[p].pending != Set::<Seq<char>>::empty());
                assert(live_msgs(orig.take(p + 1)) == live_msgs(orig.take(p)).push(orig[p]));
                assert(msg_models(v@) =~= live_msgs(orig.take(p + 1)) + orig.skip(p + 1));
                p = p + 1;
            }
            i = i + 1;
        }
    }
    proof {
        assert(orig.skip(p).len() == 0);
        assert(p == orig.len());
        assert(orig.take(p) =~= orig);
    }
}

/// Copies a message list, field by field.
fn clone_msgs(v: &Vec<PendingMessage>) -> (r: Vec<PendingMessage>)
    ensures
        r@.len() == v@.len(),
        forall|i: int| 0 <= i < v@.len() ==> r@[i].nonce == v@[i].nonce && r@[i].body@
            == v@[i].body@ && r@[i].pending@ == v@[i].pending@,
{
    let mut r: Vec<PendingMessage> = Vec::new();
    let mut i: usize = 0;
    while i < v.len()
        invariant
            i <= v@.len(),
            r@.len() == i,
            forall|j: int| 0 <= j < i ==> r@[j].nonce == v@[j].nonce && r@[j].body@ == v@[j].body@
                && r@[j].pending@ == v@[j].pending@,
        decreases v@.len() - i,
    {
        let m = &v[i];
        r.push(PendingMessage {
            nonce: m.nonce,
            body: m.body.clone(),
            pending: clone_ids(&m.pending),
        });
        i = i + 1;
    }
    r
}

/// Removes the identifier from every message's pending set in one topic's
/// message list. Reports whether anything was removed.
fn strip_msgs(v: &mut Vec<PendingMessage>, id: &String) -> (changed: bool)
    requires
        msgs_nodup(old(v)@),
    ensures
        msgs_nodup(final(v)@),
        msg_models(final(v)@) == strip_id(msg_models(old(v)@), id@),
        changed == has_pending(msg_models(old(v)@), id@),
{
    let ghost v0 = v@;
    let mut changed = false;
    let mut j: usize = 0;
    while j < v.len()
        invariant
            msgs_nodup(v0),
            j <= v@.len(),
            v@.len() == v0.len(),
            forall|p: int| 0 <= p < j ==> v@[p]@ == strip_id(msg_models(v0), id@)[p]
                && ids_nodup(v@[p].pending@),
            forall|p: int| j <= p < v0.len() ==> v@[p] == v0[p],
            changed == exists|p: int| 0 <= p < j && v0[p]@.pending.contains(id@),
        decreases v@.len() - j,
    {
        let ghost vpre = v@;
        let mut m = v.remove(j);
        match find_id(&m.pending, id) {
            Some(q) => {
                m.pending.remove(q);
                proof {
                    lemma_ids_remove(v0[j as int].pending@, q as int);
                    assert(v0[j as int]@.pending.contains(id@));
                }
                changed = true;
            },
            None => {
                proof {
                    assert(!v0[j as int]@.pending.contains(id@));
                    assert(v0[j as int]@.pending.remove(id@) =~= v0[j as int]@.pending);
                }
            },
        }
        let ghost gm = m@;
        v.insert(j, m);
        proof {
            assert(v@ =~= vpre.update(j as int, v@[j as int]));
            assert(gm == strip_id(msg_models(v0), id@)[j as int]);
        }
        j = j + 1;
    }
    proof {
        assert(msg_models(v@) =~= strip_id(msg_models(v0), id@));
        assert forall|p: int| 0 <= p < v@.len() implies ids_nodup(v@[p].pending@) by {
            assert(v@[p]@ == strip_id(msg_models(v0), id@)[p]);
        }
        if changed {
            let p = choose|p: int| 0 <= p < j && v0[p]@.pending.contains(id@);
            assert(msg_models(v0)[p].pending.contains(id@));
        } else {
            assert(!has_pending(msg_models(v0), id@)) by {
                if has_pending(msg_models(v0), id@) {
                    let p = choose|p: int|
                        0 <= p < msg_models(v0).len() && msg_models(v0)[p].pending.contains(id@);
                    assert(v0[p]@.pending.contains(id@));
                }
            }
        }
    }
    changed
}

} // verus!
