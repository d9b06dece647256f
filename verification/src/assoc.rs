//! Association sequences with pairwise-distinct keys: the representation
//! both caches use, together with its map abstraction.

use vstd::prelude::*;

verus! {

/// The keys of `s` are pairwise distinct.
pub open spec fn assoc_distinct<K, V>(s: Seq<(K, V)>) -> bool {
    forall|i: int, j: int| 0 <= i < j < s.len() ==> s[i].0 != s[j].0
}

/// Whether some entry of `s` carries key `k`.
pub open spec fn assoc_has_key<K, V>(s: Seq<(K, V)>, k: K) -> bool {
    exists|i: int| 0 <= i < s.len() && s[i].0 == k
}

/// The value stored for key `k` in `s` (meaningful only when the keys of
/// `s` are distinct and `k` is present).
pub open spec fn assoc_value_of<K, V>(s: Seq<(K, V)>, k: K) -> V {
    let i = choose|i: int| 0 <= i < s.len() && s[i].0 == k;
    s[i].1
}

/// The contents of an association sequence as a map.
pub open spec fn assoc_map<K, V>(s: Seq<(K, V)>) -> Map<K, V> {
    Map::new(|k: K| assoc_has_key(s, k), |k: K| assoc_value_of(s, k))
}

/// In a distinct-keyed association sequence, the entry at any index is the
/// one its key looks up.
pub proof fn lemma_assoc_at<K, V>(s: Seq<(K, V)>, i: int)
    requires
        assoc_distinct(s),
        0 <= i < s.len(),
    ensures
        assoc_has_key(s, s[i].0),
        assoc_value_of(s, s[i].0) == s[i].1,
{
    assert(assoc_has_key(s, s[i].0));
    let w = choose|w: int| 0 <= w < s.len() && s[w].0 == s[i].0;
    if w != i {
        if w < i {
            assert(s[w].0 != s[i].0);
        } else {
            assert(s[i].0 != s[w].0);
        }
    }
}

/// Appending a fresh key to a distinct-keyed association sequence extends
/// its map by exactly that binding.
pub proof fn lemma_assoc_push<K, V>(s: Seq<(K, V)>, k: K, v: V)
    requires
        assoc_distinct(s),
        !assoc_has_key(s, k),
    ensures
        assoc_map(s.push((k, v))) == assoc_map(s).insert(k, v),
        assoc_distinct(s.push((k, v))),
{
    let s2 = s.push((k, v));
    assert forall|k2: K| assoc_has_key(s2, k2) implies assoc_has_key(s, k2) || k2 == k by {
        let i = choose|i: int| 0 <= i < s2.len() && s2[i].0 == k2;
        if i < s.len() {
            assert(s[i].0 == k2);
        }
    }
    assert forall|k2: K| assoc_has_key(s, k2) implies assoc_has_key(s2, k2) by {
        let i = choose|i: int| 0 <= i < s.len() && s[i].0 == k2;
        assert(s2[i].0 == k2);
    }
    assert(s2[s.len() as int].0 == k);
    assert(assoc_has_key(s2, k));
    assert forall|k2: K| assoc_has_key(s2, k2) implies assoc_value_of(s2, k2) == (if k2 == k {
        v
    } else {
        assoc_value_of(s, k2)
    }) by {
        let i = choose|i: int| 0 <= i < s2.len() && s2[i].0 == k2;
        if k2 == k {
            if i < s.len() {
                assert(s[i].0 == k2);
                assert(assoc_has_key(s, k));
            }
            assert(i == s.len());
        } else {
            assert(i < s.len());
            assert(s[i].0 == k2);
            let j = choose|j: int| 0 <= j < s.len() && s[j].0 == k2;
            if i != j {
                if i < j {
                    assert(s[i].0 != s[j].0);
                } else {
                    assert(s[j].0 != s[i].0);
                }
            }
        }
    }
    assert(assoc_map(s2) =~= assoc_map(s).insert(k, v));
}

} // verus!
