//! Association lists: sequences of key-value pairs read as maps, the last pair of a key
//! giving its value.

use vstd::prelude::*;

verus! {

/// The value of the last pair whose key is `k`.
pub open spec fn assoc_get<K, V>(s: Seq<(K, V)>, k: K) -> Option<V>
    decreases s.len(),
{
    if s.len() == 0 {
        None
    } else if s.last().0 == k {
        Some(s.last().1)
    } else {
        assoc_get(s.drop_last(), k)
    }
}

/// The pairs whose key is not `k`, in order.
pub open spec fn assoc_without<K, V>(s: Seq<(K, V)>, k: K) -> Seq<(K, V)>
    decreases s.len(),
{
    if s.len() == 0 {
        s
    } else if s.last().0 == k {
        assoc_without(s.drop_last(), k)
    } else {
        assoc_without(s.drop_last(), k).push(s.last())
    }
}

/// The map that an association list stands for.
pub open spec fn assoc_map<K, V>(s: Seq<(K, V)>) -> Map<K, V> {
    Map::new(|k: K| assoc_get(s, k) is Some, |k: K| assoc_get(s, k)->0)
}

/// Dropping the pairs of `k` forgets `k` and keeps every other key's value.
pub proof fn lemma_assoc_without<K, V>(s: Seq<(K, V)>, k: K, j: K)
    ensures
        assoc_get(assoc_without(s, k), j) == if j == k {
            None
        } else {
            assoc_get(s, j)
        },
    decreases s.len(),
{
    if s.len() > 0 {
        lemma_assoc_without(s.drop_last(), k, j);
        let w = assoc_without(s.drop_last(), k);
        assert(w.push(s.last()).drop_last() =~= w);
    }
}

/// Appending a pair sets its key and keeps every other key's value.
pub proof fn lemma_assoc_push<K, V>(s: Seq<(K, V)>, k: K, v: V)
    ensures
        assoc_map(s.push((k, v))) == assoc_map(s).insert(k, v),
{
    let t = s.push((k, v));
    assert(t.drop_last() =~= s);
    assert(assoc_map(t) =~= assoc_map(s).insert(k, v));
}

/// Dropping the pairs of `k`, then appending one for it, is inserting it in the map.
pub proof fn lemma_assoc_replace<K, V>(s: Seq<(K, V)>, k: K, v: V)
    ensures
        assoc_map(assoc_without(s, k).push((k, v))) == assoc_map(s).insert(k, v),
{
    let w = assoc_without(s, k);
    lemma_assoc_push(w, k, v);
    assert forall|j: K| #[trigger] assoc_get(w, j) == if j == k { None } else { assoc_get(s, j) } by {
        lemma_assoc_without(s, k, j);
    }
    assert(assoc_map(w).insert(k, v) =~= assoc_map(s).insert(k, v));
}

/// Dropping the pairs of `k` removes it from the map.
pub proof fn lemma_assoc_remove<K, V>(s: Seq<(K, V)>, k: K)
    ensures
        assoc_map(assoc_without(s, k)) == assoc_map(s).remove(k),
{
    let w = assoc_without(s, k);
    assert forall|j: K| #[trigger] assoc_get(w, j) == if j == k { None } else { assoc_get(s, j) } by {
        lemma_assoc_without(s, k, j);
    }
    assert(assoc_map(w) =~= assoc_map(s).remove(k));
}

} // verus!
