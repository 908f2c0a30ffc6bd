//! The subscription registry: which subscribers are registered on which
//! topic.
//!
//! Abstractly a registry is a map from topic text to the set of subscriber
//! identifier texts, [`reg_map`]. A topic key may carry an empty set
//! transiently (after an unsubscribe); [`Registry::sweep`] drops such keys,
//! as the broker does once per event-loop iteration.

use crate::ids::{clone_ids, find_id, ids_dup_free, ids_nodup, ids_set, lemma_ids_push, lemma_ids_remove, lemma_ids_set_len};
use vstd::prelude::*;

verus! {

/// One topic and the subscribers currently registered on it.
pub struct RegEntry {
    pub topic: String,
    pub ids: Vec<String>,
}

/// The subscription registry.
pub struct Registry {
    entries: Vec<RegEntry>,
}

/// Whether some entry carries the given topic text.
pub open spec fn reg_has_key(s: Seq<RegEntry>, k: Seq<char>) -> bool {
    exists|i: int| 0 <= i < s.len() && s[i].topic@ == k
}

/// No two entries carry the same topic text.
pub open spec fn reg_uniq(s: Seq<RegEntry>) -> bool {
    forall|i: int, j: int| 0 <= i < j < s.len() ==> s[i].topic@ != s[j].topic@
}

/// Every entry's subscriber list is duplicate-free.
pub open spec fn reg_nodup(s: Seq<RegEntry>) -> bool {
    forall|i: int| 0 <= i < s.len() ==> ids_nodup(s[i].ids@)
}

/// The map a sequence of entries denotes.
pub open spec fn reg_map(s: Seq<RegEntry>) -> Map<Seq<char>, Set<Seq<char>>>
    decreases s.len(),
{
    if s.len() == 0 {
        Map::empty()
    } else {
        reg_map(s.drop_last()).insert(s.last().topic@, ids_set(s.last().ids@))
    }
}

/// The set a registry view maps a topic to; the empty set for an unknown
/// topic.
pub open spec fn subs_at(m: Map<Seq<char>, Set<Seq<char>>>, k: Seq<char>) -> Set<Seq<char>> {
    if m.contains_key(k) {
        m[k]
    } else {
        Set::empty()
    }
}

/// How a sweep relates the registry view after to the view before: keys
/// with empty sets are dropped, all others keep their sets.
pub open spec fn reg_sweep_post(
    m0: Map<Seq<char>, Set<Seq<char>>>,
    m1: Map<Seq<char>, Set<Seq<char>>>,
) -> bool {
    &&& forall|k: Seq<char>| #[trigger]
        m1.contains_key(k) <==> m0.contains_key(k) && m0[k] != Set::<Seq<char>>::empty()
    &&& forall|k: Seq<char>| #[trigger] m1.contains_key(k) ==> m1[k] == m0[k]
}

/// What restoring a registry snapshot yields: the denoted map when the
/// snapshot is well formed, the empty map otherwise.
pub open spec fn restored_reg(s: Seq<RegEntry>) -> Map<Seq<char>, Set<Seq<char>>> {
    if reg_uniq(s) && reg_nodup(s) {
        reg_map(s)
    } else {
        Map::empty()
    }
}

/// A key is in the denoted map exactly when some entry carries it.
pub proof fn lemma_reg_map_key(s: Seq<RegEntry>, k: Seq<char>)
    ensures
        reg_map(s).contains_key(k) <==> reg_has_key(s, k),
    decreases s.len(),
{
    if s.len() > 0 {
        lemma_reg_map_key(s.drop_last(), k);
        if s.last().topic@ == k {
            assert(s[s.len() - 1].topic@ == k);
        } else {
            if reg_has_key(s.drop_last(), k) {
                let i = choose|i: int| 0 <= i < s.len() - 1 && s.drop_last()[i].topic@ == k;
                assert(s[i].topic@ == k);
            }
            if reg_has_key(s, k) {
                let i = choose|i: int| 0 <= i < s.len() && s[i].topic@ == k;
                assert(i < s.len() - 1);
                assert(s.drop_last()[i].topic@ == k);
            }
        }
    }
}

/// With unique keys, the denoted map sends each entry's topic to that
/// entry's subscriber set.
pub proof fn lemma_reg_map_at(s: Seq<RegEntry>, i: int)
    requires
        reg_uniq(s),
        0 <= i < s.len(),
    ensures
        reg_map(s).contains_key(s[i].topic@),
        reg_map(s)[s[i].topic@] == ids_set(s[i].ids@),
    decreases s.len(),
{
    if i < s.len() - 1 {
        assert(s.drop_last()[i] == s[i]);
        lemma_reg_map_at(s.drop_last(), i);
        assert(s.last().topic@ != s[i].topic@);
    }
}

/// Replacing an entry, topic kept, updates exactly that topic's set.
pub proof fn lemma_reg_map_update(s: Seq<RegEntry>, i: int, e: RegEntry)
    requires
        reg_uniq(s),
        0 <= i < s.len(),
        e.topic@ == s[i].topic@,
    ensures
        reg_map(s.update(i, e)) == reg_map(s).insert(e.topic@, ids_set(e.ids@)),
    decreases s.len(),
{
    let t = s.update(i, e);
    if i == s.len() - 1 {
        assert(t.drop_last() =~= s.drop_last());
        assert(t.last() == e);
        assert(reg_map(t) =~= reg_map(s).insert(e.topic@, ids_set(e.ids@)));
    } else {
        assert(t.drop_last() =~= s.drop_last().update(i, e));
        assert(s.drop_last()[i] == s[i]);
        lemma_reg_map_update(s.drop_last(), i, e);
        assert(t.last() == s.last());
        assert(s.last().topic@ != e.topic@);
        assert(reg_map(t) =~= reg_map(s).insert(e.topic@, ids_set(e.ids@)));
    }
}

/// Appending an entry with a fresh topic adds exactly that key.
pub proof fn lemma_reg_map_push(s: Seq<RegEntry>, e: RegEntry)
    ensures
        reg_map(s.push(e)) == reg_map(s).insert(e.topic@, ids_set(e.ids@)),
{
    assert(s.push(e).drop_last() =~= s);
    assert(s.push(e).last() == e);
}

/// Removing an entry removes exactly its key from the denoted map.
pub proof fn lemma_reg_map_remove(s: Seq<RegEntry>, i: int)
    requires
        reg_uniq(s),
        0 <= i < s.len(),
    ensures
        reg_map(s.remove(i)) == reg_map(s).remove(s[i].topic@),
    decreases s.len(),
{
    let t = s.remove(i);
    let k = s[i].topic@;
    if i == s.len() - 1 {
        assert(t =~= s.drop_last());
        lemma_reg_map_key(t, k);
        assert(forall|j: int| 0 <= j < t.len() ==> t[j].topic@ != k);
        assert(!reg_map(t).contains_key(k));
        assert(reg_map(t).remove(k) =~= reg_map(t));
        assert(reg_map(s).remove(k) =~= reg_map(t));
    } else {
        assert(t.drop_last() =~= s.drop_last().remove(i));
        assert(s.drop_last()[i] == s[i]);
        lemma_reg_map_remove(s.drop_last(), i);
        assert(t.last() == s.last());
        assert(s.last().topic@ != k);
        assert(reg_map(t) =~= reg_map(s).remove(k));
    }
}

/// Entry sequences equal in topic and subscriber texts denote the same map.
pub proof fn lemma_reg_map_congruent(a: Seq<RegEntry>, b: Seq<RegEntry>)
    requires
        a.len() == b.len(),
        forall|i: int| 0 <= i < a.len() ==> a[i].topic@ == b[i].topic@ && a[i].ids@ == b[i].ids@,
    ensures
        reg_map(a) == reg_map(b),
    decreases a.len(),
{
    if a.len() > 0 {
        assert(forall|i: int|
            0 <= i < a.len() - 1 ==> a.drop_last()[i].topic@ == b.drop_last()[i].topic@
                && a.drop_last()[i].ids@ == b.drop_last()[i].ids@);
        lemma_reg_map_congruent(a.drop_last(), b.drop_last());
        assert(reg_map(a) =~= reg_map(b));
    }
}

impl View for Registry {
    type V = Map<Seq<char>, Set<Seq<char>>>;

    closed spec fn view(&self) -> Map<Seq<char>, Set<Seq<char>>> {
        reg_map(self.entries@)
    }
}

impl Registry {
    /// Entries carry unique topics and duplicate-free subscriber lists.
    pub closed spec fn wf(&self) -> bool {
        reg_uniq(self.entries@) && reg_nodup(self.entries@)
    }

    /// An empty registry.
    pub fn new() -> (r: Registry)
        ensures
            r.wf(),
            r@ == Map::<Seq<char>, Set<Seq<char>>>::empty(),
    {
        Registry { entries: Vec::new() }
    }

    /// The position of the entry for a topic, if any.
    fn find_topic(&self, topic: &String) -> (r: Option<usize>)
        ensures
            r matches Some(i) ==> i < self.entries@.len() && self.entries@[i as int].topic@
                == topic@,
            r is None <==> !reg_has_key(self.entries@, topic@),
    {
        let mut i: usize = 0;
        while i < self.entries.len()
            invariant
                i <= self.entries@.len(),
                forall|j: int| 0 <= j < i ==> self.entries@[j].topic@ != topic@,
            decreases self.entries@.len() - i,
        {
            if self.entries[i].topic == *topic {
                return Some(i);
            }
            i = i + 1;
        }
        None
    }

    /// Whether a topic has an entry.
    pub fn contains_topic(&self, topic: &String) -> (r: bool)
        ensures
            r == self@.contains_key(topic@),
    {
        proof {
            lemma_reg_map_key(self.entries@, topic@);
        }
        self.find_topic(topic).is_some()
    }

    /// Whether an identifier is registered on a topic.
    pub fn is_subscribed(&self, topic: &String, id: &String) -> (r: bool)
        requires
            self.wf(),
        ensures
            r == (self@.contains_key(topic@) && self@[topic@].contains(id@)),
    {
        proof {
            lemma_reg_map_key(self.entries@, topic@);
        }
        match self.find_topic(topic) {
            None => false,
            Some(i) => {
                proof {
                    lemma_reg_map_at(self.entries@, i as int);
                }
                find_id(&self.entries[i].ids, id).is_some()
            },
        }
    }

    /// A copy of the subscriber list of a topic, if the topic has an entry.
    pub fn subscribers_of(&self, topic: &String) -> (r: Option<Vec<String>>)
        requires
            self.wf(),
        ensures
            r is Some <==> self@.contains_key(topic@),
            r matches Some(v) ==> ids_set(v@) == self@[topic@] && ids_nodup(v@),
    {
        proof {
            lemma_reg_map_key(self.entries@, topic@);
        }
        match self.find_topic(topic) {
            None => None,
            Some(i) => {
                proof {
                    lemma_reg_map_at(self.entries@, i as int);
                }
                Some(clone_ids(&self.entries[i].ids))
            },
        }
    }

    /// Idempotent insert of an identifier into a topic's set; creates the
    /// topic entry if absent. Reports whether the registry changed.
    pub fn subscribe(&mut self, topic: &String, id: &String) -> (changed: bool)
        requires
            old(self).wf(),
        ensures
            final(self).wf(),
            final(self)@ == old(self)@.insert(topic@, subs_at(old(self)@, topic@).insert(id@)),
            changed == !(old(self)@.contains_key(topic@) && old(self)@[topic@].contains(id@)),
    {
        proof {
            lemma_reg_map_key(self.entries@, topic@);
        }
        match self.find_topic(topic) {
            None => {
                let ghost s0 = self.entries@;
                let mut ids: Vec<String> = Vec::new();
                ids.push(id.clone());
                let entry = RegEntry { topic: topic.clone(), ids };
                let ghost ge = entry;
                self.entries.push(entry);
                proof {
                    lemma_reg_map_push(s0, ge);
                    lemma_ids_push(Seq::<String>::empty(), *id);
                    lemma_ids_set_len(Seq::<String>::empty());
                    assert(ge.ids@ =~= Seq::<String>::empty().push(*id));
                    assert(ids_set(ge.ids@) =~= Set::<Seq<char>>::empty().insert(id@));
                    assert forall|p: int, q: int|
                        0 <= p < q < self.entries@.len() implies self.entries@[p].topic@
                        != self.entries@[q].topic@ by {
                        if q == s0.len() as int {
                            assert(self.entries@[p] == s0[p]);
                        }
                    }
                    assert forall|p: int| 0 <= p < self.entries@.len() implies ids_nodup(
                        self.entries@[p].ids@,
                    ) by {
                        if p < s0.len() {
                            assert(self.entries@[p] == s0[p]);
                        }
                    }
                }
            },
            Some(i) => {
                proof {
                    lemma_reg_map_at(self.entries@, i as int);
                }
                match find_id(&self.entries[i].ids, id) {
                    Some(_) => {
                        proof {
                            assert(self@[topic@].contains(id@));
                            assert(self@[topic@].insert(id@) =~= self@[topic@]);
                            assert(self@.insert(topic@, self@[topic@]) =~= self@);
                        }
                        return false;
                    },
                    None => {
                        let ghost s0 = self.entries@;
                        let mut e = self.entries.remove(i);
                        e.ids.push(id.clone());
                        let ghost ge = e;
                        self.entries.insert(i, e);
                        proof {
                            assert(self.entries@ =~= s0.update(i as int, ge));
                            assert(ge.topic@ == topic@);
                            assert(ge.ids@ == s0[i as int].ids@.push(*id));
                            lemma_ids_push(s0[i as int].ids@, *id);
                            lemma_reg_map_update(s0, i as int, ge);
                            assert forall|p: int, q: int|
                                0 <= p < q < self.entries@.len() implies self.entries@[p].topic@
                                != self.entries@[q].topic@ by {
                                assert(self.entries@[p].topic@ == s0[p].topic@);
                                assert(self.entries@[q].topic@ == s0[q].topic@);
                            }
                            assert forall|p: int| 0 <= p < self.entries@.len() implies ids_nodup(
                                self.entries@[p].ids@,
                            ) by {
                                if p != i as int {
                                    assert(self.entries@[p] == s0[p]);
                                }
                            }
                        }
                    },
                }
            },
        }
        true
    }

    /// Idempotent removal of an identifier from a topic's set; a missing
    /// topic or identifier is a no-op, not an error. The topic key stays,
    /// even when its set becomes empty, until the next sweep.
    pub fn unsubscribe(&mut self, topic: &String, id: &String) -> (changed: bool)
        requires
            old(self).wf(),
        ensures
            final(self).wf(),
            changed == (old(self)@.contains_key(topic@) && old(self)@[topic@].contains(id@)),
            old(self)@.contains_key(topic@) ==> final(self)@ == old(self)@.insert(
                topic@,
                old(self)@[topic@].remove(id@),
            ),
            !old(self)@.contains_key(topic@) ==> final(self)@ == old(self)@,
    {
        proof {
            lemma_reg_map_key(self.entries@, topic@);
        }
        match self.find_topic(topic) {
            None => false,
            Some(i) => {
                proof {
                    lemma_reg_map_at(self.entries@, i as int);
                }
                match find_id(&self.entries[i].ids, id) {
                    None => {
                        proof {
                            assert(!self@[topic@].contains(id@));
                            assert(self@[topic@].remove(id@) =~= self@[topic@]);
                            assert(self@.insert(topic@, self@[topic@]) =~= self@);
                        }
                        false
                    },
                    Some(j) => {
                        let ghost s0 = self.entries@;
                        let mut e = self.entries.remove(i);
                        e.ids.remove(j);
                        let ghost ge = e;
                        self.entries.insert(i, e);
                        proof {
                            assert(self.entries@ =~= s0.update(i as int, ge));
                            assert(ge.topic@ == topic@);
                            assert(ge.ids@ == s0[i as int].ids@.remove(j as int));
                            lemma_ids_remove(s0[i as int].ids@, j as int);
                            lemma_reg_map_update(s0, i as int, ge);
                            assert forall|p: int, q: int|
                                0 <= p < q < self.entries@.len() implies self.entries@[p].topic@
                                != self.entries@[q].topic@ by {
                                assert(self.entries@[p].topic@ == s0[p].topic@);
                                assert(self.entries@[q].topic@ == s0[q].topic@);
                            }
                            assert forall|p: int| 0 <= p < self.entries@.len() implies ids_nodup(
                                self.entries@[p].ids@,
                            ) by {
                                if p != i as int {
                                    assert(self.entries@[p] == s0[p]);
                                }
                            }
                        }
                        true
                    },
                }
            },
        }
    }

    /// Drops every topic whose subscriber set became empty.
    pub fn sweep(&mut self)
        requires
            old(self).wf(),
        ensures
            final(self).wf(),
            reg_sweep_post(old(self)@, final(self)@),
    {
        let ghost m0 = reg_map(self.entries@);
        let mut i: usize = 0;
        while i < self.entries.len()
            invariant
                reg_uniq(self.entries@),
                reg_nodup(self.entries@),
                i <= self.entries@.len(),
                forall|j: int| 0 <= j < i ==> self.entries@[j].ids@.len() > 0,
                forall|k: Seq<char>| #[trigger] reg_map(self.entries@).contains_key(k)
                    ==> m0.contains_key(k) && reg_map(self.entries@)[k] == m0[k],
                forall|k: Seq<char>|
                    m0.contains_key(k) && m0[k] != Set::<Seq<char>>::empty() ==> #[trigger]
                        reg_map(self.entries@).contains_key(k),
            decreases self.entries@.len() - i,
        {
            if self.entries[i].ids.is_empty() {
                let ghost s0 = self.entries@;
                let ghost k = s0[i as int].topic@;
                proof {
                    lemma_reg_map_at(s0, i as int);
                    lemma_ids_set_len(s0[i as int].ids@);
                    lemma_reg_map_remove(s0, i as int);
                    assert(reg_map(s0)[k] == Set::<Seq<char>>::empty());
                }
                self.entries.remove(i);
                proof {
                    s0.remove_ensures(i as int);
                    assert(self.entries@ == s0.remove(i as int));
                    assert(reg_map(self.entries@) == reg_map(s0).remove(k));
                    assert forall|p: int, q: int|
                        0 <= p < q < self.entries@.len() implies self.entries@[p].topic@
                        != self.entries@[q].topic@ by {
                        let p0 = if p < i as int { p } else { p + 1 };
                        let q0 = if q < i as int { q } else { q + 1 };
                        assert(self.entries@[p] == s0[p0]);
                        assert(self.entries@[q] == s0[q0]);
                    }
                    assert forall|j: int| 0 <= j < self.entries@.len() implies ids_nodup(
                        self.entries@[j].ids@,
                    ) by {
                        let j0 = if j < i as int { j } else { j + 1 };
                        assert(self.entries@[j] == s0[j0]);
                    }
                    assert forall|j: int| 0 <= j < i implies self.entries@[j].ids@.len() > 0 by {
                        assert(self.entries@[j] == s0[j]);
                    }
                    assert forall|k2: Seq<char>|
                        m0.contains_key(k2) && m0[k2] != Set::<Seq<char>>::empty()
                        implies #[trigger] reg_map(self.entries@).contains_key(k2) by {
                        assert(reg_map(s0).contains_key(k2));
                        if k2 == k {
                            assert(reg_map(s0)[k] == m0[k]);
                        }
                    }
                }
            } else {
                i = i + 1;
            }
        }
        proof {
            assert forall|k: Seq<char>| #[trigger] reg_map(self.entries@).contains_key(k) implies
                m0.contains_key(k) && m0[k] != Set::<Seq<char>>::empty() by {
                lemma_reg_map_key(self.entries@, k);
                let j = choose|j: int|
                    0 <= j < self.entries@.len() && self.entries@[j].topic@ == k;
                lemma_reg_map_at(self.entries@, j);
                lemma_ids_set_len(self.entries@[j].ids@);
            }
        }
    }

    /// A copy of the registry's contents, for the persistence sidecar.
    pub fn to_snapshot(&self) -> (s: Vec<RegEntry>)
        requires
            self.wf(),
        ensures
            reg_uniq(s@),
            reg_nodup(s@),
            reg_map(s@) == self@,
    {
        let mut s: Vec<RegEntry> = Vec::new();
        let mut i: usize = 0;
        while i < self.entries.len()
            invariant
                reg_uniq(self.entries@),
                reg_nodup(self.entries@),
                i <= self.entries@.len(),
                s@.len() == i,
                forall|j: int| 0 <= j < i ==> s@[j].topic@ == self.entries@[j].topic@ && s@[j].ids@
                    == self.entries@[j].ids@,
            decreases self.entries@.len() - i,
        {
            let e = &self.entries[i];
            s.push(RegEntry { topic: e.topic.clone(), ids: clone_ids(&e.ids) });
            i = i + 1;
        }
        proof {
            lemma_reg_map_congruent(s@, self.entries@);
        }
        s
    }

    /// Rebuilds a registry from snapshot contents. A snapshot that breaks
    /// the representation invariants (duplicate topics or duplicate
    /// subscribers) counts as unparseable: the registry starts empty.
    pub fn from_snapshot(s: Vec<RegEntry>) -> (r: Registry)
        ensures
            r.wf(),
            r@ == restored_reg(s@),
    {
        let mut i: usize = 0;
        while i < s.len()
            invariant
                i <= s@.len(),
                forall|p: int, q: int| 0 <= p < q < i ==> s@[p].topic@ != s@[q].topic@,
                forall|p: int| 0 <= p < i ==> ids_nodup(s@[p].ids@),
            decreases s@.len() - i,
        {
            let mut j: usize = 0;
            while j < i
                invariant
                    j <= i,
                    i < s@.len(),
                    forall|q: int| 0 <= q < j ==> s@[q].topic@ != s@[i as int].topic@,
                decreases i - j,
            {
                if s[j].topic == s[i].topic {
                    return Registry { entries: Vec::new() };
                }
                j = j + 1;
            }
            if !ids_dup_free(&s[i].ids) {
                return Registry { entries: Vec::new() };
            }
            i = i + 1;
        }
        Registry { entries: s }
    }
}

} // verus!
