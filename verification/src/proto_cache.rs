//! The protocol cache: (page index, panel side) to the pre-built
//! terminal-rendering protocol, together with the rectangle it was built
//! for.
//!
//! A protocol is derived data, valid only for the rectangle it was built
//! for; the staleness predicate here is the sole one used by both the
//! coordinator and the render fallback path.

use vstd::prelude::*;
use crate::assoc::{assoc_map, distinct_keys, lemma_assoc_contains, lemma_assoc_get, lemma_assoc_prepend, lemma_assoc_remove};
use crate::geometry::PanelRect;

verus! {

/// A mapping from (page index, is-left-panel) to (rectangle used to build,
/// protocol object), generic in the protocol type, which it never inspects.
pub struct ProtocolCache<P> {
    entries: Vec<((usize, bool), (PanelRect, P))>,
}

/// An entry is usable only if it exists and was built for a rectangle of
/// the panel's current width and height; otherwise it is stale and must be
/// rebuilt.
pub open spec fn spec_stale<P>(
    m: Map<(usize, bool), (PanelRect, P)>,
    key: (usize, bool),
    rect: PanelRect,
) -> bool {
    !(m.contains_key(key) && m[key].0.spec_same_size(rect))
}

/// An entry built for rectangle `built` is stale for exactly the probe
/// rectangles whose width or height differ from `built`; in particular it
/// is not stale for `built` itself.
pub proof fn lemma_entry_staleness<P>(
    m: Map<(usize, bool), (PanelRect, P)>,
    key: (usize, bool),
    built: PanelRect,
    proto: P,
    probe: PanelRect,
)
    ensures
        spec_stale(m.insert(key, (built, proto)), key, probe) <==> !built.spec_same_size(probe),
{
}

impl<P> ProtocolCache<P> {
    /// The mapping this cache holds.
    pub closed spec fn view(&self) -> Map<(usize, bool), (PanelRect, P)> {
        assoc_map(self.entries@)
    }

    /// Entries carry distinct keys.
    pub closed spec fn wf(&self) -> bool {
        distinct_keys(self.entries@)
    }

    /// An empty protocol cache.
    pub fn new() -> (r: ProtocolCache<P>)
        ensures
            r.wf(),
            r@ =~= Map::<(usize, bool), (PanelRect, P)>::empty(),
    {
        ProtocolCache { entries: Vec::new() }
    }

    /// The position of `(page, is_left)` in the entry vector, if present.
    fn position(&self, page: usize, is_left: bool) -> (r: Option<usize>)
        ensures
            match r {
                Some(i) => i < self.entries@.len() && self.entries@[i as int].0 == (page, is_left),
                None => forall|i: int|
                    0 <= i < self.entries@.len() ==> self.entries@[i].0 != (page, is_left),
            },
    {
        let mut i: usize = 0;
        while i < self.entries.len()
            invariant
                0 <= i <= self.entries@.len(),
                forall|j: int| 0 <= j < i ==> self.entries@[j].0 != (page, is_left),
            decreases self.entries@.len() - i,
        {
            let key = &self.entries[i].0;
            if key.0 == page && key.1 == is_left {
                proof {
                    assert(self.entries@[i as int].0 == (page, is_left));
                }
                return Some(i);
            }
            proof {
                assert(self.entries@[i as int].0 != (page, is_left));
            }
            i = i + 1;
        }
        None
    }

    /// Looks up the entry for one panel of one page: the rectangle it was
    /// built for, and the protocol.
    pub fn get(&self, page: usize, is_left: bool) -> (r: Option<&(PanelRect, P)>)
        requires
            self.wf(),
        ensures
            match r {
                Some(e) => self@.contains_key((page, is_left)) && *e == self@[(page, is_left)],
                None => !self@.contains_key((page, is_left)),
            },
    {
        proof {
            lemma_assoc_contains(self.entries@, (page, is_left));
        }
        match self.position(page, is_left) {
            Some(i) => {
                proof {
                    lemma_assoc_get(self.entries@, i as int);
                }
                Some(&self.entries[i].1)
            },
            None => None,
        }
    }

    /// Whether the cached protocol for this panel is stale relative to the
    /// panel's current rectangle. A missing entry counts as stale: it must
    /// be built before it can be drawn.
    pub fn is_stale(&self, page: usize, is_left: bool, rect: &PanelRect) -> (r: bool)
        requires
            self.wf(),
        ensures
            r == spec_stale(self@, (page, is_left), *rect),
    {
        match self.get(page, is_left) {
            Some(e) => !e.0.same_size(rect),
            None => true,
        }
    }

    /// Stores the protocol built for one panel of one page, together with
    /// the rectangle used to build it, replacing any previous entry.
    pub fn put(&mut self, page: usize, is_left: bool, rect: PanelRect, proto: P)
        requires
            old(self).wf(),
        ensures
            final(self).wf(),
            final(self)@ == old(self)@.insert((page, is_left), (rect, proto)),
    {
        proof {
            lemma_assoc_contains(self.entries@, (page, is_left));
        }
        let ghost s0 = self.entries@;
        match self.position(page, is_left) {
            Some(i) => {
                proof {
                    lemma_assoc_remove(s0, i as int);
                }
                let _ = self.entries.remove(i);
                let ghost s1 = self.entries@;
                self.entries.insert(0, ((page, is_left), (rect, proto)));
                proof {
                    assert(self.entries@ =~= seq![((page, is_left), (rect, proto))] + s1);
                    lemma_assoc_prepend(s1, (page, is_left), (rect, proto));
                    assert(self@ =~= assoc_map(s0).insert((page, is_left), (rect, proto)));
                    assert(distinct_keys(self.entries@)) by {
                        assert(forall|p: int|
                            0 <= p < s1.len() ==> #[trigger] s1[p].0 != (page, is_left)) by {
                            assert(forall|p: int| 0 <= p < i ==> s1[p] == s0[p]);
                            assert(forall|p: int| i <= p < s1.len() ==> s1[p] == s0[p + 1]);
                        }
                    }
                }
            },
            None => {
                self.entries.insert(0, ((page, is_left), (rect, proto)));
                proof {
                    assert(self.entries@ =~= seq![((page, is_left), (rect, proto))] + s0);
                    lemma_assoc_prepend(s0, (page, is_left), (rect, proto));
                    assert(distinct_keys(self.entries@)) by {
                        assert(forall|p: int|
                            0 <= p < s0.len() ==> #[trigger] s0[p].0 != (page, is_left));
                    }
                }
            },
        }
    }

    /// Removes every entry; called atomically with a chapter change so no
    /// renderer ever reads stale-chapter data.
    pub fn clear(&mut self)
        ensures
            final(self).wf(),
            final(self)@ =~= Map::<(usize, bool), (PanelRect, P)>::empty(),
    {
        self.entries.clear();
    }
}

} // verus!
