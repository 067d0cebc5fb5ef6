//! Association sequences and the maps they denote. Both caches store their
//! entries as a recency-ordered vector of pairs with pairwise-distinct keys;
//! the lemmas here connect the vector operations to map operations.

use vstd::prelude::*;

verus! {

/// The map an association sequence denotes; with distinct keys the order of
/// the pairs is irrelevant.
pub open spec fn assoc_map<K, V>(s: Seq<(K, V)>) -> Map<K, V>
    decreases s.len(),
{
    if s.len() == 0 {
        Map::empty()
    } else {
        assoc_map(s.drop_first()).insert(s[0].0, s[0].1)
    }
}

/// No key occurs twice.
pub open spec fn distinct_keys<K, V>(s: Seq<(K, V)>) -> bool {
    forall|i: int, j: int| 0 <= i < j < s.len() ==> s[i].0 != s[j].0
}

/// A key is in the denoted map exactly when some pair carries it.
pub proof fn lemma_assoc_contains<K, V>(s: Seq<(K, V)>, k: K)
    ensures
        assoc_map(s).contains_key(k) <==> exists|i: int| 0 <= i < s.len() && s[i].0 == k,
    decreases s.len(),
{
    if s.len() == 0 {
    } else {
        lemma_assoc_contains(s.drop_first(), k);
        if s[0].0 == k {
            assert(0 <= 0 < s.len() && s[0].0 == k);
        } else {
            if assoc_map(s).contains_key(k) {
                let i = choose|i: int| 0 <= i < s.drop_first().len() && s.drop_first()[i].0 == k;
                assert(s[i + 1].0 == k);
            }
            if exists|i: int| 0 <= i < s.len() && s[i].0 == k {
                let i = choose|i: int| 0 <= i < s.len() && s[i].0 == k;
                assert(i != 0);
                assert(s.drop_first()[i - 1].0 == k);
            }
        }
    }
}

/// With distinct keys, the pair at any index gives the map's value at its key.
pub proof fn lemma_assoc_get<K, V>(s: Seq<(K, V)>, i: int)
    requires
        distinct_keys(s),
        0 <= i < s.len(),
    ensures
        assoc_map(s).contains_key(s[i].0),
        assoc_map(s)[s[i].0] == s[i].1,
    decreases s.len(),
{
    if i == 0 {
    } else {
        assert(forall|p: int, q: int|
            0 <= p < q < s.drop_first().len() ==> s.drop_first()[p].0 != s.drop_first()[q].0);
        assert(s.drop_first()[i - 1] == s[i]);
        lemma_assoc_get(s.drop_first(), i - 1);
        assert(s[0].0 != s[i].0);
    }
}

/// With distinct keys, removing the pair at an index removes exactly its key
/// from the denoted map.
pub proof fn lemma_assoc_remove<K, V>(s: Seq<(K, V)>, i: int)
    requires
        distinct_keys(s),
        0 <= i < s.len(),
    ensures
        assoc_map(s.remove(i)) =~= assoc_map(s).remove(s[i].0),
    decreases s.len(),
{
    lemma_assoc_contains(s.drop_first(), s[0].0);
    if i == 0 {
        assert(s.remove(0) =~= s.drop_first());
        assert(forall|j: int| 0 <= j < s.drop_first().len() ==> s.drop_first()[j] == s[j + 1]);
        assert(!assoc_map(s.drop_first()).contains_key(s[0].0));
        assert(assoc_map(s).remove(s[0].0) =~= assoc_map(s.drop_first()));
    } else {
        assert(forall|p: int, q: int|
            0 <= p < q < s.drop_first().len() ==> s.drop_first()[p].0 != s.drop_first()[q].0);
        lemma_assoc_remove(s.drop_first(), i - 1);
        assert(s.remove(i).drop_first() =~= s.drop_first().remove(i - 1));
        assert(s.remove(i).len() == s.len() - 1);
        assert(s.remove(i)[0] == s[0]);
        assert(assoc_map(s.remove(i)) == assoc_map(s.remove(i).drop_first()).insert(s[0].0, s[0].1));
        assert(s.drop_first()[i - 1] == s[i]);
        assert(s[0].0 != s[i].0);
        assert(assoc_map(s.drop_first()).remove(s[i].0).insert(s[0].0, s[0].1)
            =~= assoc_map(s.drop_first()).insert(s[0].0, s[0].1).remove(s[i].0));
    }
}

/// Prepending a pair inserts its key in front of everything else.
pub proof fn lemma_assoc_prepend<K, V>(s: Seq<(K, V)>, k: K, v: V)
    ensures
        assoc_map(seq![(k, v)] + s) =~= assoc_map(s).insert(k, v),
{
    let u = seq![(k, v)] + s;
    assert(u.len() == s.len() + 1);
    assert(u.drop_first() =~= s);
    assert(u[0] == (k, v));
}

} // verus!
