//! Association lists: sequences of key/value pairs read as finite maps.
//!
//! Both registries keep their entries in a vector in which no key occurs
//! twice. The functions here say which map such a sequence stands for, and the
//! lemmas relate the three list edits the registries make (append, overwrite in
//! place, delete by moving the last pair into the gap) to the corresponding map
//! operations.

use vstd::prelude::*;

verus! {

/// No key occurs at two positions of `s`.
pub open spec fn distinct_keys<K, V>(s: Seq<(K, V)>) -> bool {
    forall|i: int, j: int| 0 <= i < j < s.len() ==> (#[trigger] s[i]).0 != (#[trigger] s[j]).0
}

/// Some pair of `s` has the key `k`.
pub open spec fn has_key<K, V>(s: Seq<(K, V)>, k: K) -> bool {
    exists|i: int| 0 <= i < s.len() && (#[trigger] s[i]).0 == k
}

/// A position at which `k` occurs in `s`, if there is one.
pub open spec fn position<K, V>(s: Seq<(K, V)>, k: K) -> int {
    choose|i: int| 0 <= i < s.len() && (#[trigger] s[i]).0 == k
}

/// The map that `s` stands for: its keys, each with the value paired to it.
pub open spec fn to_map<K, V>(s: Seq<(K, V)>) -> Map<K, V> {
    Map::new(|k: K| has_key(s, k), |k: K| s[position(s, k)].1)
}

/// Every pair of a list with distinct keys is a binding of its map.
pub proof fn lemma_binding_at<K, V>(s: Seq<(K, V)>, i: int)
    requires
        distinct_keys(s),
        0 <= i < s.len(),
    ensures
        has_key(s, s[i].0),
        position(s, s[i].0) == i,
        to_map(s).contains_key(s[i].0),
        to_map(s)[s[i].0] == s[i].1,
{
}

/// Appending a binding for a key that is not yet present inserts it.
pub proof fn lemma_push<K, V>(s: Seq<(K, V)>, k: K, v: V)
    requires
        distinct_keys(s),
        !has_key(s, k),
    ensures
        distinct_keys(s.push((k, v))),
        to_map(s.push((k, v))) == to_map(s).insert(k, v),
{
    let t = s.push((k, v));
    assert forall|x: K| has_key(t, x) <==> (x == k || has_key(s, x)) by {
        if x == k {
            assert(t[s.len() as int].0 == k);
        }
        if has_key(s, x) {
            assert(t[position(s, x)].0 == x);
        }
    }
}

/// Replacing the value at position `i` overwrites the binding of that key.
pub proof fn lemma_update<K, V>(s: Seq<(K, V)>, i: int, v: V)
    requires
        distinct_keys(s),
        0 <= i < s.len(),
    ensures
        distinct_keys(s.update(i, (s[i].0, v))),
        to_map(s.update(i, (s[i].0, v))) == to_map(s).insert(s[i].0, v),
{
    let t = s.update(i, (s[i].0, v));
    assert forall|x: K| has_key(t, x) <==> has_key(s, x) by {
        if has_key(s, x) {
            assert(t[position(s, x)].0 == x);
        }
    }
}

/// Deleting the pair at position `i` by moving the last pair into its place
/// removes the binding of that key.
pub proof fn lemma_swap_remove<K, V>(s: Seq<(K, V)>, i: int)
    requires
        distinct_keys(s),
        0 <= i < s.len(),
    ensures
        distinct_keys(s.update(i, s.last()).drop_last()),
        to_map(s.update(i, s.last()).drop_last()) == to_map(s).remove(s[i].0),
{
    let last = s.len() - 1;
    let t = s.update(i, s.last()).drop_last();
    assert forall|a: int| 0 <= a < t.len() implies #[trigger] t[a] == s[if a == i {
        last
    } else {
        a
    }] by {}
    assert forall|x: K| has_key(t, x) <==> (x != s[i].0 && has_key(s, x)) by {
        if x != s[i].0 && has_key(s, x) {
            let p = position(s, x);
            assert(t[if p == last { i } else { p }].0 == x);
        }
    }
}

/// Whatever its keys, a list stands for a finite map.
pub proof fn lemma_finite_dom<K, V>(s: Seq<(K, V)>)
    ensures
        to_map(s).dom().finite(),
    decreases s.len(),
{
    if s.len() == 0 {
        assert(to_map(s).dom() =~= Set::<K>::empty());
    } else {
        let t = s.drop_last();
        lemma_finite_dom(t);
        assert forall|x: K| has_key(s, x) <==> (x == s.last().0 || has_key(t, x)) by {
            if has_key(s, x) && position(s, x) < t.len() {
                assert(t[position(s, x)].0 == x);
            }
        }
        assert(to_map(s).dom() =~= to_map(t).dom().insert(s.last().0));
    }
}

/// A list with distinct keys stands for a map with one binding per pair.
pub proof fn lemma_size<K, V>(s: Seq<(K, V)>)
    requires
        distinct_keys(s),
    ensures
        to_map(s).dom().finite(),
        to_map(s).dom().len() == s.len(),
    decreases s.len(),
{
    if s.len() == 0 {
        assert(to_map(s).dom() =~= Set::<K>::empty());
    } else {
        let last = s.len() - 1;
        let t = s.drop_last();
        lemma_swap_remove(s, last);
        assert(s.update(last, s.last()).drop_last() =~= t);
        lemma_size(t);
    }
}

} // verus!
