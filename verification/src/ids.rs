//! Sequences of subscriber identifiers and their set abstraction.
//!
//! Both the subscription registry and the delivery queue keep subscriber
//! identifiers in duplicate-free vectors of strings; their contracts speak
//! of the set of identifier texts those vectors hold. This module defines
//! that abstraction and the facts about pushing and removing identifiers
//! that both sides share.

use vstd::prelude::*;

verus! {

/// The set of identifier texts a sequence of identifiers holds.
pub open spec fn ids_set(ids: Seq<String>) -> Set<Seq<char>> {
    Set::new(|k: Seq<char>| ids_has(ids, k))
}

/// Whether some identifier in the sequence has the given text.
pub open spec fn ids_has(ids: Seq<String>, k: Seq<char>) -> bool {
    exists|i: int| 0 <= i < ids.len() && ids[i]@ == k
}

/// No two identifiers in the sequence have the same text.
pub open spec fn ids_nodup(ids: Seq<String>) -> bool {
    forall|i: int, j: int| 0 <= i < j < ids.len() ==> ids[i]@ != ids[j]@
}

/// Appending an identifier adds exactly its text to the set, and keeps the
/// sequence duplicate-free when the text was not yet present.
pub proof fn lemma_ids_push(ids: Seq<String>, x: String)
    ensures
        ids_set(ids.push(x)) == ids_set(ids).insert(x@),
        !ids_has(ids, x@) && ids_nodup(ids) ==> ids_nodup(ids.push(x)),
{
    let p = ids.push(x);
    assert forall|k: Seq<char>| ids_set(p).contains(k) implies ids_set(ids).insert(x@).contains(k) by {
        let i = choose|i: int| 0 <= i < p.len() && p[i]@ == k;
        if i < ids.len() {
            assert(ids[i]@ == k);
        }
    }
    assert forall|k: Seq<char>| ids_set(ids).insert(x@).contains(k) implies ids_set(p).contains(k) by {
        if k == x@ {
            assert(p[ids.len() as int]@ == k);
        } else {
            let i = choose|i: int| 0 <= i < ids.len() && ids[i]@ == k;
            assert(p[i]@ == k);
        }
    }
    assert(ids_set(p) =~= ids_set(ids).insert(x@));
}

/// Removing the identifier at a position removes exactly its text from the
/// set, provided the sequence was duplicate-free; the remainder stays
/// duplicate-free.
pub proof fn lemma_ids_remove(ids: Seq<String>, i: int)
    requires
        ids_nodup(ids),
        0 <= i < ids.len(),
    ensures
        ids_set(ids.remove(i)) == ids_set(ids).remove(ids[i]@),
        ids_nodup(ids.remove(i)),
{
    let r = ids.remove(i);
    ids.remove_ensures(i);
    assert forall|p: int, q: int| 0 <= p < q < r.len() implies r[p]@ != r[q]@ by {
        let p0 = if p < i { p } else { p + 1 };
        let q0 = if q < i { q } else { q + 1 };
        assert(r[p] == ids[p0]);
        assert(r[q] == ids[q0]);
    }
    assert forall|k: Seq<char>| ids_set(r).contains(k) implies ids_set(ids).remove(ids[i]@).contains(
        k,
    ) by {
        let j = choose|j: int| 0 <= j < r.len() && r[j]@ == k;
        let j0 = if j < i { j } else { j + 1 };
        assert(ids[j0]@ == k);
        assert(j0 != i);
        if k == ids[i]@ {
            if j0 < i {
                assert(ids[j0]@ != ids[i]@);
            } else {
                assert(ids[i]@ != ids[j0]@);
            }
        }
    }
    assert forall|k: Seq<char>| ids_set(ids).remove(ids[i]@).contains(k) implies ids_set(r).contains(
        k,
    ) by {
        let j = choose|j: int| 0 <= j < ids.len() && ids[j]@ == k;
        assert(j != i);
        if j < i {
            assert(r[j]@ == k);
        } else {
            assert(r[j - 1]@ == k);
        }
    }
    assert(ids_set(r) =~= ids_set(ids).remove(ids[i]@));
}

/// A sequence whose set is empty has no identifiers at all.
pub proof fn lemma_ids_set_len(ids: Seq<String>)
    ensures
        ids.len() == 0 ==> ids_set(ids) == Set::<Seq<char>>::empty(),
        ids.len() > 0 ==> ids_set(ids) != Set::<Seq<char>>::empty(),
{
    if ids.len() == 0 {
        assert(ids_set(ids) =~= Set::<Seq<char>>::empty());
    } else {
        assert(ids_set(ids).contains(ids[0]@));
    }
}

/// Checks that a subscriber list is duplicate-free.
pub fn ids_dup_free(v: &Vec<String>) -> (r: bool)
    ensures
        r == ids_nodup(v@),
{
    let mut i: usize = 0;
    while i < v.len()
        invariant
            i <= v.len(),
            forall|p: int, q: int| 0 <= p < q < i ==> v@[p]@ != v@[q]@,
        decreases v.len() - i,
    {
        let mut j: usize = 0;
        while j < i
            invariant
                j <= i,
                i < v.len(),
                forall|q: int| 0 <= q < j ==> v@[q]@ != v@[i as int]@,
            decreases i - j,
        {
            if v[j] == v[i] {
                return false;
            }
            j = j + 1;
        }
        i = i + 1;
    }
    true
}

/// Finds the position of an identifier with the given text, if any.
pub fn find_id(v: &Vec<String>, id: &String) -> (r: Option<usize>)
    ensures
        r matches Some(i) ==> i < v.len() && v@[i as int]@ == id@,
        r is None <==> !ids_has(v@, id@),
{
    let mut i: usize = 0;
    while i < v.len()
        invariant
            i <= v.len(),
            forall|j: int| 0 <= j < i ==> v@[j]@ != id@,
        decreases v.len() - i,
    {
        if v[i] == *id {
            return Some(i);
        }
        i = i + 1;
    }
    None
}

/// Clones a vector of identifiers.
pub fn clone_ids(v: &Vec<String>) -> (r: Vec<String>)
    ensures
        r@ == v@,
{
    let mut r: Vec<String> = Vec::new();
    let mut i: usize = 0;
    while i < v.len()
        invariant
            i <= v.len(),
            r@ =~= v@.take(i as int),
        decreases v.len() - i,
    {
        r.push(v[i].clone());
        i = i + 1;
    }
    proof {
        assert(v@.take(v@.len() as int) =~= v@);
    }
    r
}

} // verus!
