//! Helpers for walking the integer-keyed hash maps that the game systems use.
use std::collections::HashMap;
use std::hash::Hash;
use vstd::prelude::*;
use vstd::std_specs::hash::obeys_key_model;
use vstd::std_specs::iter::IteratorSpec;

verus! {

broadcast use vstd::std_specs::hash::group_hash_axioms;

/// Snapshot of the keys of a map, each key exactly once, in the map's
/// iteration order.
pub fn keys_of<K: Copy + Eq + Hash, V>(m: &HashMap<K, V>) -> (r: Vec<K>)
    requires
        obeys_key_model::<K>(),
    ensures
        r@.no_duplicates(),
        forall|k: K| r@.contains(k) <==> m@.contains_key(k),
{
    let ghost full = vstd::std_specs::hash::spec_keys_iter(m).remaining();
    let mut out: Vec<K> = Vec::new();
    for k in it: m.keys()
        invariant
            it.seq() == full,
            full.no_duplicates(),
            full.unref().to_set() == m@.dom(),
            out@ == full.take(it.index() as int).unref(),
    {
        proof {
            assert(full.take(it.index() as int + 1).unref() == full.take(
                it.index() as int,
            ).unref().push(*full[it.index() as int]));
        }
        out.push(*k);
    }
    proof {
        assert(full.take(full.len() as int) == full);
        assert forall|k: K| out@.contains(k) <==> m@.contains_key(k) by {
            if m@.contains_key(k) {
                assert(full.unref().to_set().contains(k));
            }
            if out@.contains(k) {
                assert(full.unref().to_set().contains(k));
            }
        }
        assert forall|i: int, j: int|
            0 <= i < out@.len() && 0 <= j < out@.len() && i != j implies out@[i] != out@[j] by {
            assert(full[i] != full[j]);
        }
    }
    out
}

} // verus!

verus! {

/// Mutable access to a map entry: `HashMap::get_mut`. The contract states
/// that the reference starts at the stored value and that the map afterwards
/// holds whatever the caller left behind it.
#[verifier::external_body]
pub(crate) fn map_get_mut<'a, K: Eq + Hash, V>(m: &'a mut HashMap<K, V>, k: &K) -> (r: Option<&'a mut V>)
    requires
        obeys_key_model::<K>(),
    ensures
        match r {
            Some(v) => {
                &&& old(m)@.contains_key(*k)
                &&& *v == old(m)@[*k]
                &&& final(m)@ == old(m)@.insert(*k, *final(v))
            },
            None => {
                &&& !old(m)@.contains_key(*k)
                &&& final(m)@ == old(m)@
            },
        },
{
    m.get_mut(k)
}

} // verus!

verus! {

/// The values of a map listed through an enumeration of its keys.
pub open spec fn lists_values<K, V>(m: Map<K, V>, ks: Seq<K>, vs: Seq<&V>) -> bool {
    &&& ks.len() == vs.len()
    &&& ks.no_duplicates()
    &&& forall|k: K| ks.contains(k) <==> m.contains_key(k)
    &&& forall|i: int| 0 <= i < vs.len() ==> *vs[i] == m[#[trigger] ks[i]]
}

/// References to every value of a map, one per key, in iteration order.
pub fn values_of<'a, K: Copy + Eq + Hash, V>(m: &'a HashMap<K, V>) -> (r: Vec<&'a V>)
    requires
        obeys_key_model::<K>(),
    ensures
        exists|ks: Seq<K>| #[trigger] lists_values(m@, ks, r@),
{
    let ks = keys_of(m);
    let mut out: Vec<&'a V> = Vec::new();
    let mut i: usize = 0;
    while i < ks.len()
        invariant
            0 <= i <= ks@.len(),
            obeys_key_model::<K>(),
            ks@.no_duplicates(),
            forall|k: K| ks@.contains(k) <==> m@.contains_key(k),
            out@.len() == i,
            forall|j: int| 0 <= j < i ==> *out@[j] == m@[#[trigger] ks@[j]],
        decreases ks@.len() - i,
    {
        let k = ks[i];
        assert(ks@.contains(k));
        match m.get(&k) {
            Some(v) => {
                out.push(v);
            },
            None => {
                assert(false);
            },
        }
        i = i + 1;
    }
    proof {
        assert(lists_values(m@, ks@, out@));
    }
    out
}

} // verus!

verus! {

/// `ks` lists every key of `m` exactly once.
pub open spec fn enumerates<K, V>(m: Map<K, V>, ks: Seq<K>) -> bool {
    &&& ks.no_duplicates()
    &&& forall|k: K| ks.contains(k) <==> m.contains_key(k)
}

/// The values under the listed keys that pass `keep`, in list order.
pub open spec fn selected_values<K, V>(m: Map<K, V>, ks: Seq<K>, keep: spec_fn(K) -> bool) -> Seq<V> {
    ks.filter(keep).map_values(|k: K| m[k])
}

/// A sequence of references read as the values they point to.
pub open spec fn derefs<V>(s: Seq<&V>) -> Seq<V> {
    s.map_values(|v: &V| *v)
}

/// One more key of a list, kept or not.
pub proof fn lemma_selected_step<K, V>(m: Map<K, V>, ks: Seq<K>, i: int, keep: spec_fn(K) -> bool)
    requires
        0 <= i < ks.len(),
    ensures
        selected_values(m, ks.take(i + 1), keep) == if keep(ks[i]) {
            selected_values(m, ks.take(i), keep).push(m[ks[i]])
        } else {
            selected_values(m, ks.take(i), keep)
        },
{
    assert(ks.take(i + 1) == ks.take(i).push(ks[i]));
    ks.take(i).lemma_filter_push(ks[i], keep);
    if keep(ks[i]) {
        ks.take(i).filter(keep).lemma_push_map_commute(|k: K| m[k], ks[i]);
    }
}

/// Pushing a reference pushes its value.
pub proof fn lemma_derefs_push<V>(s: Seq<&V>, v: &V)
    ensures
        derefs(s.push(v)) == derefs(s).push(*v),
{
    assert(derefs(s.push(v)) =~= derefs(s).push(*v));
}

} // verus!

verus! {

/// Filtering a list without repeats gives a list without repeats.
pub proof fn lemma_filter_no_dup<A>(s: Seq<A>, p: spec_fn(A) -> bool)
    requires
        s.no_duplicates(),
    ensures
        s.filter(p).no_duplicates(),
    decreases s.len(),
{
    if s.len() > 0 {
        let t = s.drop_last();
        let e = s.last();
        assert(t.push(e) == s);
        assert(t.no_duplicates()) by {
            assert forall|i: int, j: int| 0 <= i < t.len() && 0 <= j < t.len() && i != j implies t[i] != t[j] by {
                assert(t[i] == s[i] && t[j] == s[j]);
            }
        }
        lemma_filter_no_dup(t, p);
        t.lemma_filter_push(e, p);
        if p(e) {
            assert(!t.filter(p).contains(e)) by {
                if t.filter(p).contains(e) {
                    t.lemma_filter_contains_rev(p, e);
                    let i = choose|i: int| 0 <= i < t.len() && t[i] == e;
                    assert(s[i] == s[s.len() - 1]);
                }
            }
        }
    }
}

} // verus!
