//! The decoded-bitmap cache: page index to bitmap, bounded, least recently
//! used entry evicted beyond the ceiling.
//!
//! Entries are inserted only when a completed fetch is drained, never
//! mutated, and removed only on a full clear at chapter change or by
//! eviction. Misses are purely observational: nothing here fetches.

use vstd::prelude::*;
use crate::assoc::{assoc_map, distinct_keys, lemma_assoc_contains, lemma_assoc_get, lemma_assoc_prepend, lemma_assoc_remove};

verus! {

/// A bounded mapping from page index to decoded bitmap, generic in the
/// bitmap type, which it never inspects. The entry vector is kept in
/// recency order, most recently used first.
pub struct PageCache<V> {
    entries: Vec<(usize, V)>,
    capacity: usize,
}

impl<V> PageCache<V> {
    /// The mapping this cache holds.
    pub closed spec fn view(&self) -> Map<usize, V> {
        assoc_map(self.entries@)
    }

    /// The cached page indices, most recently used first.
    pub closed spec fn order(&self) -> Seq<usize> {
        self.entries@.map_values(|e: (usize, V)| e.0)
    }

    /// The configured ceiling on resident entries.
    pub closed spec fn spec_capacity(&self) -> usize {
        self.capacity
    }

    /// Entries carry distinct keys and never exceed the ceiling.
    pub closed spec fn wf(&self) -> bool {
        &&& distinct_keys(self.entries@)
        &&& self.entries@.len() <= self.capacity
        &&& self.capacity >= 1
    }

    /// The index is resident.
    pub open spec fn spec_contains(&self, page: usize) -> bool {
        self@.contains_key(page)
    }

    /// An empty cache that will hold at most `capacity` bitmaps.
    pub fn new(capacity: usize) -> (r: PageCache<V>)
        requires
            capacity >= 1,
        ensures
            r.wf(),
            r@ =~= Map::<usize, V>::empty(),
            r.order() =~= Seq::<usize>::empty(),
            r.spec_capacity() == capacity,
    {
        PageCache { entries: Vec::new(), capacity }
    }

    /// How many bitmaps are resident.
    pub fn len(&self) -> (r: usize)
        ensures
            r == self.order().len(),
    {
        self.entries.len()
    }

    /// The position of `page` in the entry vector, if it is resident.
    fn position(&self, page: usize) -> (r: Option<usize>)
        ensures
            match r {
                Some(i) => i < self.entries@.len() && self.entries@[i as int].0 == page,
                None => forall|i: int| 0 <= i < self.entries@.len() ==> self.entries@[i].0 != page,
            },
    {
        let mut i: usize = 0;
        while i < self.entries.len()
            invariant
                0 <= i <= self.entries@.len(),
                forall|j: int| 0 <= j < i ==> self.entries@[j].0 != page,
            decreases self.entries@.len() - i,
        {
            if self.entries[i].0 == page {
                return Some(i);
            }
            i = i + 1;
        }
        None
    }

    /// Whether `page` is resident, without touching recency.
    pub fn contains_page(&self, page: usize) -> (r: bool)
        ensures
            r == self.spec_contains(page),
    {
        proof {
            lemma_assoc_contains(self.entries@, page);
        }
        match self.position(page) {
            Some(_) => true,
            None => false,
        }
    }

    /// Looks up the bitmap for `page`, marking it most recently used.
    /// The mapping itself is unchanged.
    pub fn get(&mut self, page: usize) -> (r: Option<&V>)
        requires
            old(self).wf(),
        ensures
            final(self).wf(),
            final(self)@ == old(self)@,
            final(self).spec_capacity() == old(self).spec_capacity(),
            final(self).order().to_set() == old(self).order().to_set(),
            final(self).order().len() == old(self).order().len(),
            match r {
                Some(v) => old(self)@.contains_key(page) && *v == old(self)@[page]
                    && final(self).order().len() > 0 && final(self).order()[0] == page,
                None => !old(self)@.contains_key(page)
                    && final(self).order() == old(self).order(),
            },
    {
        proof {
            lemma_assoc_contains(self.entries@, page);
        }
        match self.position(page) {
            None => None,
            Some(i) => {
                let ghost s0 = self.entries@;
                proof {
                    lemma_assoc_get(s0, i as int);
                    lemma_assoc_remove(s0, i as int);
                }
                let entry = self.entries.remove(i);
                let ghost s1 = self.entries@;
                self.entries.insert(0, entry);
                proof {
                    assert(self.entries@ =~= seq![(entry.0, entry.1)] + s1);
                    lemma_assoc_prepend(s1, entry.0, entry.1);
                    assert(self@ =~= assoc_map(s0));
                    assert(distinct_keys(self.entries@)) by {
                        assert(forall|p: int| 0 <= p < s1.len() ==> #[trigger] s1[p].0 != page) by {
                            assert(forall|p: int| 0 <= p < s1.len() ==> s1[p] == s0.remove(i as int)[p]);
                            assert(forall|p: int| 0 <= p < s1.len() ==>
                                exists|q: int| 0 <= q < s0.len() && q != i && #[trigger] s1[p] == s0[q]) by {
                                assert(forall|p: int| 0 <= p < i ==> s1[p] == s0[p]);
                                assert(forall|p: int| i <= p < s1.len() ==> s1[p] == s0[p + 1]);
                            }
                        }
                    }
                    assert(self.order().to_set() =~= old(self).order().to_set()) by {
                        assert(forall|k: usize| self.order().to_set().contains(k)
                            <==> assoc_map(self.entries@).contains_key(k)) by {
                            lemma_contains_order(self.entries@);
                        }
                        assert(forall|k: usize| old(self).order().to_set().contains(k)
                            <==> assoc_map(s0).contains_key(k)) by {
                            lemma_contains_order(s0);
                        }
                    }
                }
                Some(&self.entries[0].1)
            },
        }
    }

    /// Inserts the bitmap for `page` as most recently used, replacing any
    /// bitmap already held for that index. When the cache is full, the
    /// least recently used entry is evicted and handed back.
    pub fn put(&mut self, page: usize, bitmap: V) -> (evicted: Option<(usize, V)>)
        requires
            old(self).wf(),
        ensures
            final(self).wf(),
            final(self).spec_capacity() == old(self).spec_capacity(),
            final(self)@.contains_key(page),
            final(self)@[page] == bitmap,
            final(self).order().len() > 0 && final(self).order()[0] == page,
            match evicted {
                None => final(self)@ == old(self)@.insert(page, bitmap),
                Some((ek, ev)) => {
                    &&& ek != page
                    &&& old(self)@.contains_key(ek)
                    &&& old(self)@[ek] == ev
                    &&& old(self).order().len() > 0 && ek == old(self).order().last()
                    &&& final(self)@ == old(self)@.insert(page, bitmap).remove(ek)
                },
            },
    {
        proof {
            lemma_assoc_contains(self.entries@, page);
        }
        let ghost s0 = self.entries@;
        match self.position(page) {
            Some(i) => {
                proof {
                    lemma_assoc_remove(s0, i as int);
                }
                let _ = self.entries.remove(i);
                let ghost s1 = self.entries@;
                self.entries.insert(0, (page, bitmap));
                proof {
                    assert(self.entries@ =~= seq![(page, bitmap)] + s1);
                    lemma_assoc_prepend(s1, page, bitmap);
                    assert(self@ =~= assoc_map(s0).insert(page, bitmap));
                    assert(distinct_keys(self.entries@)) by {
                        assert(forall|p: int| 0 <= p < s1.len() ==> #[trigger] s1[p].0 != page) by {
                            assert(forall|p: int| 0 <= p < i ==> s1[p] == s0[p]);
                            assert(forall|p: int| i <= p < s1.len() ==> s1[p] == s0[p + 1]);
                        }
                    }
                    lemma_assoc_get(self.entries@, 0);
                }
                None
            },
            None => {
                self.entries.insert(0, (page, bitmap));
                proof {
                    assert(self.entries@ =~= seq![(page, bitmap)] + s0);
                    lemma_assoc_prepend(s0, page, bitmap);
                    assert(distinct_keys(self.entries@)) by {
                        assert(forall|p: int| 0 <= p < s0.len() ==> #[trigger] s0[p].0 != page);
                    }
                    lemma_assoc_get(self.entries@, 0);
                }
                if self.entries.len() > self.capacity {
                    let ghost s2 = self.entries@;
                    proof {
                        lemma_assoc_remove(s2, s2.len() - 1);
                        lemma_assoc_get(s2, s2.len() - 1);
                        assert(s2.remove(s2.len() - 1) =~= s2.drop_last());
                    }
                    let evicted = self.entries.pop();
                    proof {
                        let entry = s2.last();
                        assert(entry.0 != page) by {
                            assert(s2[0].0 == page);
                            assert(s2.len() >= 2);
                        }
                        assert(self@ =~= assoc_map(s0).insert(page, bitmap).remove(entry.0));
                        assert(old(self)@.contains_key(entry.0) && old(self)@[entry.0] == entry.1) by {
                            assert(s2.last() == s0[s0.len() - 1]);
                            lemma_assoc_get(s0, s0.len() - 1);
                        }
                        assert(entry.0 == old(self).order().last());
                        assert(self.order()[0] == page);
                    }
                    evicted
                } else {
                    None
                }
            },
        }
    }

    /// Removes every entry; called atomically with a chapter change so no
    /// renderer ever reads stale-chapter data.
    pub fn clear(&mut self)
        ensures
            old(self).wf() ==> final(self).wf(),
            final(self)@ =~= Map::<usize, V>::empty(),
            final(self).order() =~= Seq::<usize>::empty(),
            final(self).spec_capacity() == old(self).spec_capacity(),
    {
        self.entries.clear();
    }
}

/// A key stands in the recency order exactly when it is in the map.
proof fn lemma_contains_order<V>(s: Seq<(usize, V)>)
    ensures
        forall|k: usize| s.map_values(|e: (usize, V)| e.0).to_set().contains(k)
            <==> assoc_map(s).contains_key(k),
{
    let keys = s.map_values(|e: (usize, V)| e.0);
    assert forall|k: usize| keys.to_set().contains(k) <==> assoc_map(s).contains_key(k) by {
        lemma_assoc_contains(s, k);
        if keys.to_set().contains(k) {
            let i = choose|i: int| 0 <= i < keys.len() && keys[i] == k;
            assert(s[i].0 == k);
        }
        if assoc_map(s).contains_key(k) {
            let i = choose|i: int| 0 <= i < s.len() && s[i].0 == k;
            assert(keys[i] == k);
        }
    }
}

} // verus!
