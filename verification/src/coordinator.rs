//! The prefetch coordinator: guarantees the visible spread is served from
//! cache as fast as possible, keeps the pipeline working ahead of the
//! reader, bounds fetch concurrency with a permit pool, deduplicates
//! in-flight work, and drains completions into the caches.
//!
//! Background work is requested through [`Actions`]: the caller spawns one
//! worker per request and later hands the completion back through
//! [`Coordinator::on_fetch_complete`] or [`Coordinator::on_proto_complete`].
//! Completions are tagged with the epoch of the chapter that requested
//! them; a completion from an earlier chapter releases its permit but never
//! repopulates the caches.

use vstd::prelude::*;
use crate::geometry::PanelRect;
use crate::page_cache::PageCache;
use crate::proto_cache::{spec_stale, ProtocolCache};

verus! {

/// A request to download and decode one page, tagged with the chapter
/// epoch that asked for it.
#[derive(Clone, Copy, Debug, PartialEq, Eq, Structural)]
pub struct FetchRequest {
    /// The page to fetch.
    pub page: usize,
    /// The epoch the completion must carry to be accepted.
    pub epoch: u64,
}

/// A request to build the drawing protocol for one panel of one page,
/// tagged with the chapter epoch that asked for it.
#[derive(Clone, Copy, Debug, PartialEq, Eq, Structural)]
pub struct ProtoRequest {
    /// The page whose bitmap is encoded.
    pub page: usize,
    /// Whether the build is for the left panel.
    pub is_left: bool,
    /// The target rectangle to encode for.
    pub rect: PanelRect,
    /// The epoch the completion must carry to be accepted.
    pub epoch: u64,
}

/// The background work one coordinator call asks the caller to start, and
/// what the bitmap cache evicted while draining.
pub struct Actions {
    /// Fetch workers to spawn, in priority order.
    pub fetches: Vec<FetchRequest>,
    /// Protocol builds to spawn.
    pub protos: Vec<ProtoRequest>,
    /// The page whose bitmap was evicted to make room, if the cache was full.
    pub evicted: Option<usize>,
}

impl Actions {
    /// An empty batch of work.
    pub fn new() -> (r: Actions)
        ensures
            r.fetches@ =~= Seq::<FetchRequest>::empty(),
            r.protos@ =~= Seq::<ProtoRequest>::empty(),
            r.evicted is None,
    {
        Actions { fetches: Vec::new(), protos: Vec::new(), evicted: None }
    }
}

/// The page shown on the right panel is `current`; `current + 2` is the
/// page that will be there after one advance.
pub open spec fn spec_interested_right(page: usize, current: usize) -> bool {
    page == current || page == current + 2
}

/// The page shown on the left panel is `current + 1`; `current + 3` is the
/// page that will be there after one advance.
pub open spec fn spec_interested_left(page: usize, current: usize) -> bool {
    page == current + 1 || page == current + 3
}

/// The interest window: which panel sides a freshly decoded page maps to,
/// given the current spread. Returns `(right, left)`. Used by both the
/// immediate-render path and the completion-drain path.
pub fn interested_sides(page: usize, current: usize) -> (r: (bool, bool))
    ensures
        r.0 == spec_interested_right(page, current),
        r.1 == spec_interested_left(page, current),
{
    if page >= current {
        let delta = page - current;
        (delta == 0 || delta == 2, delta == 1 || delta == 3)
    } else {
        (false, false)
    }
}

/// The page is on the spread shown right now: right panel `current`, left
/// panel `current + 1`.
pub open spec fn is_visible_page(current: usize, page: usize) -> bool {
    page == current || page == current + 1
}

/// The chapter identity and the configured bounds are untouched.
pub open spec fn same_config<V, P>(pre: Coordinator<V, P>, post: Coordinator<V, P>) -> bool {
    &&& post.spec_epoch() == pre.spec_epoch()
    &&& post.spec_page_count() == pre.spec_page_count()
    &&& post.spec_limit() == pre.spec_limit()
    &&& post.spec_cache_capacity() == pre.spec_cache_capacity()
}

/// One scheduling step that only appends to the queue and leaves the
/// cache, the failed set and the running set unchanged loses no coverage:
/// a page cached, failed or in flight stays so.
proof fn step_keeps_coverage<V, P>(pre: Coordinator<V, P>, post: Coordinator<V, P>, p: usize)
    requires
        post.page_map() == pre.page_map(),
        post.failed_set() == pre.failed_set(),
        post.running_seq() == pre.running_seq(),
        post.spec_epoch() == pre.spec_epoch(),
        pre.queued_seq().is_prefix_of(post.queued_seq()),
    ensures
        (pre.spec_cached(p) || pre.spec_failed(p) || pre.spec_fetching(p)) ==> (
        post.spec_cached(p) || post.spec_failed(p) || post.spec_fetching(p)),
        pre.spec_fetching(p) ==> post.spec_fetching(p),
{
    if pre.spec_queued(p) {
        let t = choose|t: int| 0 <= t < pre.queued_seq().len() && pre.queued_seq()[t] == p;
        assert(pre.queued_seq()[t] == post.queued_seq().subrange(
            0,
            pre.queued_seq().len() as int,
        )[t]);
        assert(post.queued_seq().contains(p));
    }
}

/// Orchestrates which pages to fetch and which protocols to build, bounds
/// fetch concurrency, deduplicates in-flight work, and owns both caches.
///
/// Generic in the bitmap type `V` and the protocol type `P`, neither of
/// which it inspects.
pub struct Coordinator<V, P> {
    pages: PageCache<V>,
    protos: ProtocolCache<P>,
    /// Pages of the open chapter, zero-based.
    page_count: usize,
    /// Bumped on every chapter change; completions from other epochs are
    /// discarded.
    epoch: u64,
    /// Pages whose fetch was requested but is still waiting for a permit,
    /// in priority order.
    queued: Vec<usize>,
    /// Fetches holding a permit right now: (page, epoch at spawn). Entries
    /// from earlier epochs keep their permit until their completion drains.
    running: Vec<(usize, u64)>,
    /// Pages whose fetch failed in this chapter; never retried within the
    /// same epoch.
    failed: Vec<usize>,
    /// Protocol builds in flight for this epoch: (page, is_left, rect).
    building: Vec<(usize, bool, PanelRect)>,
    /// Size of the permit pool: the ceiling on concurrently running fetches.
    limit: usize,
}

impl<V, P> Coordinator<V, P> {
    /// The decoded-bitmap mapping.
    pub closed spec fn page_map(&self) -> Map<usize, V> {
        self.pages@
    }

    /// The protocol mapping: (page, is_left) to (rectangle built for, protocol).
    pub closed spec fn proto_map(&self) -> Map<(usize, bool), (PanelRect, P)> {
        self.protos@
    }

    /// Pages waiting for a permit, in priority order.
    pub closed spec fn queued_seq(&self) -> Seq<usize> {
        self.queued@
    }

    /// Fetches holding a permit: (page, epoch at spawn).
    pub closed spec fn running_seq(&self) -> Seq<(usize, u64)> {
        self.running@
    }

    /// Pages whose fetch failed in this epoch.
    pub closed spec fn failed_set(&self) -> Set<usize> {
        self.failed@.to_set()
    }

    /// Protocol builds in flight for this epoch.
    pub closed spec fn building_seq(&self) -> Seq<(usize, bool, PanelRect)> {
        self.building@
    }

    /// The epoch of the open chapter.
    pub closed spec fn spec_epoch(&self) -> u64 {
        self.epoch
    }

    /// Pages of the open chapter.
    pub closed spec fn spec_page_count(&self) -> usize {
        self.page_count
    }

    /// The permit pool size.
    pub closed spec fn spec_limit(&self) -> usize {
        self.limit
    }

    /// The ceiling of the bitmap cache.
    pub closed spec fn spec_cache_capacity(&self) -> usize {
        self.pages.spec_capacity()
    }

    /// How many fetch workers hold a permit right now.
    pub open spec fn permits_held(&self) -> nat {
        self.running_seq().len()
    }

    /// The page has a decoded bitmap in the cache.
    pub open spec fn spec_cached(&self, page: usize) -> bool {
        self.page_map().contains_key(page)
    }

    /// The page's fetch holds a permit in the current epoch.
    pub open spec fn spec_running(&self, page: usize) -> bool {
        self.running_seq().contains((page, self.spec_epoch()))
    }

    /// The page's fetch is waiting for a permit.
    pub open spec fn spec_queued(&self, page: usize) -> bool {
        self.queued_seq().contains(page)
    }

    /// The page is in flight: a fetch worker exists for it in the current
    /// epoch, queued or running, and its completion has not drained yet.
    pub open spec fn spec_fetching(&self, page: usize) -> bool {
        self.spec_queued(page) || self.spec_running(page)
    }

    /// The page's fetch failed in this epoch.
    pub open spec fn spec_failed(&self, page: usize) -> bool {
        self.failed_set().contains(page)
    }

    /// A protocol build is in flight for this panel and rectangle.
    pub open spec fn spec_building(&self, page: usize, is_left: bool, rect: PanelRect) -> bool {
        self.building_seq().contains((page, is_left, rect))
    }

    /// No permit is wasted: pages wait in the queue only while the whole
    /// permit pool is in use.
    pub open spec fn saturated(&self) -> bool {
        self.queued_seq().len() > 0 ==> self.permits_held() == self.spec_limit()
    }

    /// Internal consistency: distinct bookkeeping entries, the permit bound,
    /// and mutual exclusion between the cache, the in-flight sets and the
    /// failed set.
    pub closed spec fn wf(&self) -> bool {
        &&& self.pages.wf()
        &&& self.protos.wf()
        &&& self.limit >= 1
        &&& self.running@.len() <= self.limit
        &&& forall|i: int, j: int|
            0 <= i < j < self.running@.len() ==> self.running@[i] != self.running@[j]
        &&& forall|i: int|
            0 <= i < self.running@.len() ==> (#[trigger] self.running@[i]).1 <= self.epoch
        &&& forall|i: int|
            0 <= i < self.running@.len() && (#[trigger] self.running@[i]).1 == self.epoch ==> {
                &&& self.running@[i].0 < self.page_count
                &&& !self.pages@.contains_key(self.running@[i].0)
                &&& !self.failed@.contains(self.running@[i].0)
            }
        &&& forall|i: int, j: int|
            0 <= i < j < self.queued@.len() ==> self.queued@[i] != self.queued@[j]
        &&& forall|i: int|
            0 <= i < self.queued@.len() ==> {
                &&& (#[trigger] self.queued@[i]) < self.page_count
                &&& !self.pages@.contains_key(self.queued@[i])
                &&& !self.failed@.contains(self.queued@[i])
                &&& !self.running@.contains((self.queued@[i], self.epoch))
            }
        &&& forall|i: int, j: int|
            0 <= i < j < self.failed@.len() ==> self.failed@[i] != self.failed@[j]
        &&& forall|i: int|
            0 <= i < self.failed@.len() ==> (#[trigger] self.failed@[i]) < self.page_count
                && !self.pages@.contains_key(self.failed@[i])
        &&& forall|k: usize| #[trigger] self.pages@.contains_key(k) ==> k < self.page_count
        &&& forall|i: int, j: int|
            0 <= i < j < self.building@.len() ==> self.building@[i] != self.building@[j]
    }

    /// A cached page is never also in flight: mutual exclusion between the
    /// bitmap cache and the `fetching` set.
    pub proof fn lemma_cached_not_fetching(&self, page: usize)
        requires
            self.wf(),
        ensures
            self.spec_cached(page) ==> !self.spec_fetching(page),
    {
        if self.spec_cached(page) {
            if self.spec_queued(page) {
                let i = choose|i: int| 0 <= i < self.queued@.len() && self.queued@[i] == page;
            }
            if self.spec_running(page) {
                let i = choose|i: int|
                    0 <= i < self.running@.len() && self.running@[i] == (page, self.epoch);
            }
        }
    }

    /// At most `limit` fetch workers hold a permit at any instant.
    pub proof fn lemma_permit_bound(&self)
        requires
            self.wf(),
        ensures
            self.permits_held() <= self.spec_limit(),
    {
    }

    /// A fresh coordinator with no chapter open: a permit pool of `limit`
    /// and a bitmap cache that holds at most `cache_capacity` pages.
    pub fn new(limit: usize, cache_capacity: usize) -> (r: Coordinator<V, P>)
        requires
            limit >= 1,
            cache_capacity >= 1,
        ensures
            r.wf(),
            r.saturated(),
            r.page_map() =~= Map::<usize, V>::empty(),
            r.proto_map() =~= Map::<(usize, bool), (PanelRect, P)>::empty(),
            r.queued_seq() =~= Seq::<usize>::empty(),
            r.running_seq() =~= Seq::<(usize, u64)>::empty(),
            r.failed_set() =~= Set::<usize>::empty(),
            r.building_seq() =~= Seq::<(usize, bool, PanelRect)>::empty(),
            r.spec_epoch() == 0,
            r.spec_page_count() == 0,
            r.spec_limit() == limit,
            r.spec_cache_capacity() == cache_capacity,
    {
        let r = Coordinator {
            pages: PageCache::new(cache_capacity),
            protos: ProtocolCache::new(),
            page_count: 0,
            epoch: 0,
            queued: Vec::new(),
            running: Vec::new(),
            failed: Vec::new(),
            building: Vec::new(),
            limit,
        };
        proof {
            assert(r.failed@.to_set() =~= Set::<usize>::empty());
        }
        r
    }

    /// Opens a chapter of `page_count` pages: clears both caches and both
    /// tracking sets, and moves to a fresh epoch so completions still in
    /// flight for the previous chapter are discarded when they drain.
    /// Fetches of the previous chapter keep their permits until then.
    pub fn invalidate_chapter(&mut self, page_count: usize)
        requires
            old(self).wf(),
            old(self).spec_epoch() < u64::MAX,
        ensures
            final(self).wf(),
            final(self).saturated(),
            final(self).page_map() =~= Map::<usize, V>::empty(),
            final(self).proto_map() =~= Map::<(usize, bool), (PanelRect, P)>::empty(),
            final(self).queued_seq() =~= Seq::<usize>::empty(),
            final(self).failed_set() =~= Set::<usize>::empty(),
            final(self).building_seq() =~= Seq::<(usize, bool, PanelRect)>::empty(),
            forall|p: usize| !final(self).spec_fetching(p),
            final(self).spec_epoch() == old(self).spec_epoch() + 1,
            final(self).spec_page_count() == page_count,
            final(self).spec_limit() == old(self).spec_limit(),
            final(self).spec_cache_capacity() == old(self).spec_cache_capacity(),
            final(self).running_seq() == old(self).running_seq(),
            final(self).permits_held() == old(self).permits_held(),
    {
        self.pages.clear();
        self.protos.clear();
        self.queued.clear();
        self.failed.clear();
        self.building.clear();
        self.epoch = self.epoch + 1;
        self.page_count = page_count;
        proof {
            assert(self.failed@.to_set() =~= Set::<usize>::empty());
            assert(forall|p: usize| !self.running@.contains((p, self.epoch))) by {
                assert(forall|i: int|
                    0 <= i < self.running@.len() ==> (#[trigger] self.running@[i]).1 < self.epoch);
            }
        }
    }

    /// How many pages the open chapter has.
    pub fn page_count(&self) -> (r: usize)
        ensures
            r == self.spec_page_count(),
    {
        self.page_count
    }

    /// The epoch of the open chapter, which completions must carry.
    pub fn current_epoch(&self) -> (r: u64)
        ensures
            r == self.spec_epoch(),
    {
        self.epoch
    }

    /// The permit pool size.
    pub fn fetch_limit(&self) -> (r: usize)
        ensures
            r == self.spec_limit(),
    {
        self.limit
    }

    /// How many fetch workers hold a permit right now.
    pub fn permits_in_use(&self) -> (r: usize)
        ensures
            r == self.permits_held(),
    {
        self.running.len()
    }

    /// Whether a fetch worker for `page` is in flight in this epoch.
    pub fn is_fetching(&self, page: usize) -> (r: bool)
        ensures
            r == self.spec_fetching(page),
    {
        self.queued_contains(page) || self.running_current(page)
    }

    /// Whether the fetch of `page` failed in this epoch.
    pub fn has_failed(&self, page: usize) -> (r: bool)
        ensures
            r == self.spec_failed(page),
    {
        let mut i: usize = 0;
        while i < self.failed.len()
            invariant
                0 <= i <= self.failed@.len(),
                forall|j: int| 0 <= j < i ==> self.failed@[j] != page,
            decreases self.failed@.len() - i,
        {
            if self.failed[i] == page {
                proof {
                    assert(self.failed@.contains(page));
                }
                return true;
            }
            i = i + 1;
        }
        proof {
            assert(!self.failed@.contains(page));
            assert(self.failed@.to_set().contains(page) == self.failed@.contains(page));
        }
        false
    }

    /// Whether `page` has a decoded bitmap in the cache.
    pub fn contains_page(&self, page: usize) -> (r: bool)
        ensures
            r == self.spec_cached(page),
    {
        self.pages.contains_page(page)
    }

    /// Looks up the decoded bitmap for `page`, marking it most recently
    /// used so the eviction policy keeps what the reader looks at.
    pub fn cached_page(&mut self, page: usize) -> (r: Option<&V>)
        requires
            old(self).wf(),
        ensures
            final(self).wf(),
            final(self).page_map() == old(self).page_map(),
            final(self).proto_map() == old(self).proto_map(),
            final(self).queued_seq() == old(self).queued_seq(),
            final(self).running_seq() == old(self).running_seq(),
            final(self).failed_set() == old(self).failed_set(),
            final(self).building_seq() == old(self).building_seq(),
            final(self).spec_epoch() == old(self).spec_epoch(),
            final(self).spec_page_count() == old(self).spec_page_count(),
            final(self).spec_limit() == old(self).spec_limit(),
            final(self).spec_cache_capacity() == old(self).spec_cache_capacity(),
            match r {
                Some(v) => old(self).spec_cached(page) && *v == old(self).page_map()[page],
                None => !old(self).spec_cached(page),
            },
    {
        self.pages.get(page)
    }

    /// Looks up the cached protocol entry for one panel of one page.
    pub fn cached_proto(&self, page: usize, is_left: bool) -> (r: Option<&(PanelRect, P)>)
        requires
            self.wf(),
        ensures
            match r {
                Some(e) => self.proto_map().contains_key((page, is_left))
                    && *e == self.proto_map()[(page, is_left)],
                None => !self.proto_map().contains_key((page, is_left)),
            },
    {
        self.protos.get(page, is_left)
    }

    /// Whether the cached protocol for this panel is stale relative to the
    /// panel's current rectangle; a missing entry counts as stale.
    pub fn proto_is_stale(&self, page: usize, is_left: bool, rect: &PanelRect) -> (r: bool)
        requires
            self.wf(),
        ensures
            r == spec_stale(self.proto_map(), (page, is_left), *rect),
    {
        self.protos.is_stale(page, is_left, rect)
    }

    /// Every page of the chapter is cached, failed, or in flight: nothing
    /// is left for a further `ensure_spread` to start.
    pub open spec fn all_covered(&self) -> bool {
        forall|p: usize|
            p < self.spec_page_count() ==> self.spec_cached(p) || self.spec_failed(p)
                || self.spec_fetching(p)
    }

    /// Nothing remains to do for this panel: if its page is decoded and its
    /// cached protocol is stale for the panel's rectangle, a build is
    /// already in flight.
    pub open spec fn proto_settled(&self, page: usize, is_left: bool, rect_opt: Option<PanelRect>) -> bool {
        match rect_opt {
            Some(rect) => (self.spec_cached(page)
                && spec_stale(self.proto_map(), (page, is_left), rect)) ==> self.spec_building(
                page,
                is_left,
                rect,
            ),
            None => true,
        }
    }

    /// `ensure_spread(current)` has nothing left to start: every page is
    /// covered, no permit is idle while work waits, and the visible
    /// panels' protocols are usable or already being rebuilt.
    pub open spec fn spread_settled(
        &self,
        current: usize,
        left_rect: Option<PanelRect>,
        right_rect: Option<PanelRect>,
    ) -> bool {
        &&& self.all_covered()
        &&& self.saturated()
        &&& self.proto_settled(current, false, right_rect)
        &&& current + 1 < self.spec_page_count() ==> self.proto_settled(
            (current + 1) as usize,
            true,
            left_rect,
        )
    }

    /// Queues a fetch for `page` unless a bitmap is cached, the page
    /// already failed, or a fetch is already in flight: at most one fetch
    /// worker may exist per page index at a time.
    fn enqueue_if_missing(&mut self, page: usize)
        requires
            old(self).wf(),
            page < old(self).spec_page_count(),
        ensures
            final(self).wf(),
            same_config(*old(self), *final(self)),
            final(self).page_map() == old(self).page_map(),
            final(self).proto_map() == old(self).proto_map(),
            final(self).running_seq() == old(self).running_seq(),
            final(self).failed_set() == old(self).failed_set(),
            final(self).building_seq() == old(self).building_seq(),
            if old(self).spec_cached(page) || old(self).spec_failed(page) || old(self).spec_fetching(page) {
                final(self).queued_seq() == old(self).queued_seq()
            } else {
                final(self).queued_seq() == old(self).queued_seq().push(page)
            },
            final(self).spec_cached(page) || final(self).spec_failed(page) || final(self).spec_fetching(page),
    {
        let missing = !self.pages.contains_page(page) && !self.has_failed(page)
            && !self.queued_contains(page) && !self.running_current(page);
        if missing {
            self.queued.push(page);
            proof {
                assert(self.queued@.last() == page);
                assert(self.queued@.contains(page));
                assert(forall|i: int|
                    0 <= i < old(self).queued@.len() ==> self.queued@[i] == old(self).queued@[i]);
            }
        }
    }

    /// Moves queued fetches into the running set while permits are free,
    /// recording one [`FetchRequest`] per started worker, in queue order.
    fn dispatch(&mut self, actions: &mut Actions)
        requires
            old(self).wf(),
        ensures
            final(self).wf(),
            final(self).saturated(),
            same_config(*old(self), *final(self)),
            final(self).page_map() == old(self).page_map(),
            final(self).proto_map() == old(self).proto_map(),
            final(self).failed_set() == old(self).failed_set(),
            final(self).building_seq() == old(self).building_seq(),
            final(actions).protos@ == old(actions).protos@,
            final(actions).evicted == old(actions).evicted,
            ({
                let k = final(actions).fetches@.len() - old(actions).fetches@.len();
                &&& 0 <= k <= old(self).queued_seq().len()
                &&& final(self).queued_seq() == old(self).queued_seq().skip(k)
                &&& final(actions).fetches@ == old(actions).fetches@ + Seq::new(
                    k as nat,
                    |i: int| FetchRequest { page: old(self).queued_seq()[i], epoch: old(self).spec_epoch() },
                )
                &&& final(self).running_seq() == old(self).running_seq() + Seq::new(
                    k as nat,
                    |i: int| (old(self).queued_seq()[i], old(self).spec_epoch()),
                )
            }),
    {
        let ghost q0 = self.queued@;
        let ghost r0 = self.running@;
        let ghost f0 = actions.fetches@;
        let ghost p0 = actions.protos@;
        let ghost e0 = actions.evicted;
        let ghost pages0 = self.pages;
        let ghost protos0 = self.protos;
        let ghost failed0 = self.failed@;
        let ghost building0 = self.building@;
        let ghost ep = self.epoch;
        let ghost pc = self.page_count;
        let ghost lim = self.limit;
        let ghost mut k: int = 0;
        while self.queued.len() > 0 && self.running.len() < self.limit
            invariant
                self.wf(),
                0 <= k <= q0.len(),
                self.queued@ == q0.skip(k),
                self.running@ == r0 + Seq::new(k as nat, |i: int| (q0[i], ep)),
                actions.fetches@ == f0 + Seq::new(
                    k as nat,
                    |i: int| FetchRequest { page: q0[i], epoch: ep },
                ),
                actions.protos@ == p0,
                actions.evicted == e0,
                self.pages == pages0,
                self.protos == protos0,
                self.failed@ == failed0,
                self.building@ == building0,
                self.epoch == ep,
                self.page_count == pc,
                self.limit == lim,
            decreases self.queued@.len(),
        {
            proof {
                assert(q0.skip(k)[0] == q0[k]);
            }
            let p = self.queued.remove(0);
            self.running.push((p, self.epoch));
            actions.fetches.push(FetchRequest { page: p, epoch: self.epoch });
            proof {
                assert(q0.skip(k).remove(0) =~= q0.skip(k + 1));
                assert(self.running@ =~= r0 + Seq::new((k + 1) as nat, |i: int| (q0[i], ep)));
                assert(actions.fetches@ =~= f0 + Seq::new(
                    (k + 1) as nat,
                    |i: int| FetchRequest { page: q0[i], epoch: ep },
                ));
                k = k + 1;
            }
        }
        proof {
            assert(actions.fetches@.len() - f0.len() == k);
            assert(self.queued@.len() > 0 ==> self.running@.len() == self.limit);
        }
    }

    /// Whether a build for exactly this panel and rectangle is in flight.
    fn building_contains(&self, page: usize, is_left: bool, rect: &PanelRect) -> (r: bool)
        ensures
            r == self.spec_building(page, is_left, *rect),
    {
        match self.building_position(page, is_left, rect) {
            Some(_) => {
                proof {
                    assert(self.building@.contains((page, is_left, *rect)));
                }
                true
            },
            None => false,
        }
    }

    /// Schedules a protocol build for one panel when its page is decoded,
    /// its cached protocol is stale for the panel's rectangle, and no such
    /// build is in flight yet.
    fn request_proto(&mut self, page: usize, is_left: bool, rect_opt: Option<PanelRect>, actions: &mut Actions)
        requires
            old(self).wf(),
        ensures
            final(self).wf(),
            same_config(*old(self), *final(self)),
            final(self).page_map() == old(self).page_map(),
            final(self).proto_map() == old(self).proto_map(),
            final(self).queued_seq() == old(self).queued_seq(),
            final(self).running_seq() == old(self).running_seq(),
            final(self).failed_set() == old(self).failed_set(),
            final(actions).fetches@ == old(actions).fetches@,
            final(actions).evicted == old(actions).evicted,
            final(self).proto_settled(page, is_left, rect_opt),
            match rect_opt {
                None => final(self).building_seq() == old(self).building_seq()
                    && final(actions).protos@ == old(actions).protos@,
                Some(rect) => if old(self).spec_cached(page)
                    && spec_stale(old(self).proto_map(), (page, is_left), rect)
                    && !old(self).spec_building(page, is_left, rect) {
                    &&& final(self).building_seq() == old(self).building_seq().push(
                        (page, is_left, rect),
                    )
                    &&& final(actions).protos@ == old(actions).protos@.push(
                        ProtoRequest { page, is_left, rect, epoch: old(self).spec_epoch() },
                    )
                } else {
                    &&& final(self).building_seq() == old(self).building_seq()
                    &&& final(actions).protos@ == old(actions).protos@
                },
            },
    {
        match rect_opt {
            None => {},
            Some(rect) => {
                if self.pages.contains_page(page) && self.protos.is_stale(page, is_left, &rect)
                    && !self.building_contains(page, is_left, &rect) {
                    self.building.push((page, is_left, rect));
                    actions.protos.push(
                        ProtoRequest { page, is_left, rect, epoch: self.epoch },
                    );
                    proof {
                        assert(self.building@.last() == (page, is_left, rect));
                        assert(self.building@.contains((page, is_left, rect)));
                        assert(forall|i: int|
                            0 <= i < old(self).building@.len()
                                ==> self.building@[i] == old(self).building@[i]);
                    }
                }
            },
        }
    }

    /// Serves the current spread and keeps the pipeline ahead of the
    /// reader: queues a fetch for each visible page that is neither cached
    /// nor failed nor in flight, then a background warm-up fetch for every
    /// remaining page of the chapter, schedules protocol rebuilds for
    /// visible panels whose cached protocol is stale for the panel's
    /// current rectangle, and starts queued fetches while permits are free.
    ///
    /// Calling it again with no intervening completions starts nothing and
    /// changes nothing: the returned batch is empty.
    pub fn ensure_spread(
        &mut self,
        current: usize,
        left_rect: Option<PanelRect>,
        right_rect: Option<PanelRect>,
    ) -> (r: Actions)
        requires
            old(self).wf(),
            current < old(self).spec_page_count(),
        ensures
            final(self).wf(),
            final(self).spread_settled(current, left_rect, right_rect),
            same_config(*old(self), *final(self)),
            final(self).page_map() == old(self).page_map(),
            final(self).proto_map() == old(self).proto_map(),
            final(self).failed_set() == old(self).failed_set(),
            r.evicted is None,
            // a page already in flight stays in flight
            forall|p: usize| old(self).spec_fetching(p) ==> final(self).spec_fetching(p),
            // each started fetch is fresh work, now holding a permit
            forall|i: int|
                0 <= i < r.fetches@.len() ==> {
                    let f = #[trigger] r.fetches@[i];
                    &&& f.epoch == old(self).spec_epoch()
                    &&& f.page < old(self).spec_page_count()
                    &&& !old(self).spec_cached(f.page)
                    &&& !old(self).spec_failed(f.page)
                    &&& !old(self).spec_running(f.page)
                    &&& final(self).spec_running(f.page)
                },
            // the returned fetches are exactly the newly started workers
            final(self).running_seq() == old(self).running_seq() + r.fetches@.map_values(
                |f: FetchRequest| (f.page, old(self).spec_epoch()),
            ),
            forall|i: int, j: int|
                0 <= i < j < r.fetches@.len() ==> r.fetches@[i].page != r.fetches@[j].page,
            // starting from an empty queue, the visible spread is fetched first
            old(self).queued_seq().len() == 0 ==> forall|i: int, j: int|
                0 <= i < j < r.fetches@.len() && is_visible_page(current, r.fetches@[j].page)
                    ==> is_visible_page(current, r.fetches@[i].page),
            // idempotence: a settled coordinator is left untouched
            old(self).spread_settled(current, left_rect, right_rect) ==> {
                &&& r.fetches@ =~= Seq::<FetchRequest>::empty()
                &&& r.protos@ =~= Seq::<ProtoRequest>::empty()
                &&& final(self).queued_seq() == old(self).queued_seq()
                &&& final(self).running_seq() == old(self).running_seq()
                &&& final(self).building_seq() == old(self).building_seq()
            },
    {
        let mut actions = Actions::new();
        let ghost q0 = self.queued@;
        self.enqueue_if_missing(current);
        let ghost s_a = *self;
        if current + 1 < self.page_count {
            self.enqueue_if_missing(current + 1);
        }
        let ghost q_vis = self.queued@;
        proof {
            assert(s_a.queued_seq().is_prefix_of(self.queued_seq())) by {
                if self.queued@.len() > s_a.queued_seq().len() {
                    assert(s_a.queued_seq() =~= self.queued@.subrange(
                        0,
                        s_a.queued_seq().len() as int,
                    ));
                } else {
                    assert(s_a.queued_seq() =~= self.queued@.subrange(
                        0,
                        s_a.queued_seq().len() as int,
                    ));
                }
            }
            step_keeps_coverage(s_a, *self, current);
            assert(q_vis.take(q0.len() as int) =~= q0);
            assert(forall|t: int|
                q0.len() <= t < q_vis.len() ==> is_visible_page(current, #[trigger] q_vis[t]));
            if old(self).spread_settled(current, left_rect, right_rect) {
                assert(old(self).spec_cached(current) || old(self).spec_failed(current)
                    || old(self).spec_fetching(current));
                if current + 1 < self.page_count {
                    assert(old(self).spec_cached((current + 1) as usize)
                        || old(self).spec_failed((current + 1) as usize)
                        || old(self).spec_fetching((current + 1) as usize));
                }
                assert(q_vis == q0);
            }
        }
        let mut i: usize = 0;
        while i < self.page_count
            invariant
                self.wf(),
                current < self.page_count,
                same_config(*old(self), *self),
                self.page_map() == old(self).page_map(),
                self.proto_map() == old(self).proto_map(),
                self.running_seq() == old(self).running_seq(),
                self.failed_set() == old(self).failed_set(),
                self.building_seq() == old(self).building_seq(),
                0 <= i <= self.page_count,
                q_vis.len() <= self.queued@.len(),
                self.queued@.take(q_vis.len() as int) == q_vis,
                forall|t: int|
                    q_vis.len() <= t < self.queued@.len() ==> !is_visible_page(
                        current,
                        #[trigger] self.queued@[t],
                    ),
                self.spec_cached(current) || self.spec_failed(current)
                    || self.spec_fetching(current),
                current + 1 < self.page_count ==> self.spec_cached((current + 1) as usize)
                    || self.spec_failed((current + 1) as usize)
                    || self.spec_fetching((current + 1) as usize),
                forall|p: usize| old(self).spec_fetching(p) ==> self.spec_fetching(p),
                forall|p: usize|
                    p < i ==> self.spec_cached(p) || self.spec_failed(p) || self.spec_fetching(p),
                old(self).spread_settled(current, left_rect, right_rect) ==> self.queued@ == q0,
            decreases self.page_count - i,
        {
            let ghost sb = *self;
            self.enqueue_if_missing(i);
            proof {
                assert(sb.queued_seq().is_prefix_of(self.queued@)) by {
                    assert(sb.queued_seq() =~= self.queued@.subrange(
                        0,
                        sb.queued_seq().len() as int,
                    ));
                }
                step_keeps_coverage(sb, *self, current);
                if current + 1 < self.page_count {
                    step_keeps_coverage(sb, *self, (current + 1) as usize);
                }
                assert forall|p: usize|
                    p < i + 1 implies self.spec_cached(p) || self.spec_failed(p)
                    || self.spec_fetching(p) by {
                    if p < i {
                        step_keeps_coverage(sb, *self, p);
                    }
                }
                assert forall|p: usize| old(self).spec_fetching(p) implies self.spec_fetching(
                    p,
                ) by {
                    step_keeps_coverage(sb, *self, p);
                }
                if self.queued@.len() > sb.queued_seq().len() {
                    assert(self.queued@ == sb.queued_seq().push(i as usize));
                    assert(self.queued@.take(q_vis.len() as int) =~= sb.queued_seq().take(
                        q_vis.len() as int,
                    ));
                    assert(i != current && i != current + 1);
                    if old(self).spread_settled(current, left_rect, right_rect) {
                        assert(old(self).spec_cached(i as usize) || old(self).spec_failed(
                            i as usize,
                        ) || old(self).spec_fetching(i as usize));
                        assert(false);
                    }
                }
            }
            i = i + 1;
        }
        let ghost s1 = *self;
        self.request_proto(current, false, right_rect, &mut actions);
        let ghost s2 = *self;
        if current + 1 < self.page_count {
            self.request_proto(current + 1, true, left_rect, &mut actions);
        }
        let ghost pre_dispatch = *self;
        proof {
            assert(pre_dispatch.proto_settled(current, false, right_rect)) by {
                match right_rect {
                    Some(rect) => {
                        if pre_dispatch.spec_cached(current) && spec_stale(
                            pre_dispatch.proto_map(),
                            (current, false),
                            rect,
                        ) {
                            assert(s2.spec_building(current, false, rect));
                            let t = choose|t: int|
                                0 <= t < s2.building_seq().len() && s2.building_seq()[t] == (
                                    current,
                                    false,
                                    rect,
                                );
                            assert(pre_dispatch.building_seq()[t] == (current, false, rect));
                            assert(pre_dispatch.building_seq().contains((current, false, rect)));
                        }
                    },
                    None => {},
                }
            }
            if current + 1 < self.page_count {
                assert(pre_dispatch.proto_settled((current + 1) as usize, true, left_rect));
            }
            assert forall|p: usize|
                p < pre_dispatch.spec_page_count() implies pre_dispatch.spec_cached(p)
                || pre_dispatch.spec_failed(p) || pre_dispatch.spec_fetching(p) by {
                assert(s1.spec_cached(p) || s1.spec_failed(p) || s1.spec_fetching(p));
            }
        }
        self.dispatch(&mut actions);
        proof {
            let ep = old(self).spec_epoch();
            let q_full = pre_dispatch.queued_seq();
            let k = actions.fetches@.len() as int;
            assert(actions.fetches@ =~= Seq::new(
                k as nat,
                |t: int| FetchRequest { page: q_full[t], epoch: ep },
            ));
            assert(self.running_seq() =~= pre_dispatch.running_seq() + Seq::new(
                k as nat,
                |t: int| (q_full[t], ep),
            ));
            assert(pre_dispatch.running_seq() == old(self).running_seq());
            assert(actions.fetches@.map_values(|f: FetchRequest| (f.page, ep)) =~= Seq::new(
                k as nat,
                |t: int| (q_full[t], ep),
            ));
            assert forall|t: int| 0 <= t < k implies {
                let f = #[trigger] actions.fetches@[t];
                &&& f.epoch == ep
                &&& f.page < old(self).spec_page_count()
                &&& !old(self).spec_cached(f.page)
                &&& !old(self).spec_failed(f.page)
                &&& !old(self).spec_running(f.page)
                &&& self.spec_running(f.page)
            } by {
                let f = actions.fetches@[t];
                assert(f.page == q_full[t]);
                assert(self.running_seq()[pre_dispatch.running_seq().len() + t] == (f.page, ep));
                assert(self.running_seq().contains((f.page, ep)));
                assert(!pre_dispatch.running@.contains((q_full[t], pre_dispatch.epoch)));
            }
            assert forall|t: int, u: int| 0 <= t < u < k implies actions.fetches@[t].page
                != actions.fetches@[u].page by {
                assert(q_full[t] != q_full[u]);
            }
            assert forall|p: usize| pre_dispatch.spec_fetching(p) implies self.spec_fetching(
                p,
            ) by {
                if pre_dispatch.spec_queued(p) {
                    let t = choose|t: int| 0 <= t < q_full.len() && q_full[t] == p;
                    if t < k {
                        assert(self.running_seq()[pre_dispatch.running_seq().len() + t] == (
                            p,
                            ep,
                        ));
                        assert(self.running_seq().contains((p, ep)));
                    } else {
                        assert(self.queued_seq() == q_full.skip(k));
                        assert(self.queued_seq()[t - k] == p);
                        assert(self.queued_seq().contains(p));
                    }
                } else {
                    let t = choose|t: int|
                        0 <= t < pre_dispatch.running_seq().len() && pre_dispatch.running_seq()[t]
                            == (p, ep);
                    assert(self.running_seq()[t] == (p, ep));
                    assert(self.running_seq().contains((p, ep)));
                }
            }
            assert forall|p: usize|
                p < self.spec_page_count() implies self.spec_cached(p) || self.spec_failed(p)
                || self.spec_fetching(p) by {
                assert(pre_dispatch.spec_cached(p) || pre_dispatch.spec_failed(p)
                    || pre_dispatch.spec_fetching(p));
            }
            assert forall|p: usize| old(self).spec_fetching(p) implies self.spec_fetching(p) by {
                assert(pre_dispatch.spec_fetching(p));
            }
            if old(self).queued_seq().len() == 0 {
                assert forall|t: int, u: int|
                    0 <= t < u < k && is_visible_page(current, actions.fetches@[u].page)
                        implies is_visible_page(current, actions.fetches@[t].page) by {
                    if u >= q_vis.len() {
                        assert(!is_visible_page(current, q_full[u]));
                    } else {
                        assert(t < q_vis.len());
                        assert(q_full[t] == q_vis[t]);
                        assert(q0.len() == 0);
                        assert(is_visible_page(current, q_vis[t]));
                    }
                }
            }
            if old(self).spread_settled(current, left_rect, right_rect) {
                assert(pre_dispatch.queued_seq() == q0);
                if q0.len() > 0 {
                    assert(pre_dispatch.permits_held() == pre_dispatch.spec_limit());
                    assert(self.running_seq().len() <= self.spec_limit());
                    assert(k == 0);
                } else {
                    assert(k == 0);
                }
                assert(actions.fetches@ =~= Seq::<FetchRequest>::empty());
                assert(self.running_seq() =~= old(self).running_seq());
                assert(self.queued_seq() =~= old(self).queued_seq());
            }
        }
        actions
    }

    /// The position of the worker `(page, epoch)` in the running set.
    fn running_position(&self, page: usize, epoch: u64) -> (r: Option<usize>)
        ensures
            match r {
                Some(i) => i < self.running@.len() && self.running@[i as int] == (page, epoch),
                None => !self.running@.contains((page, epoch)),
            },
    {
        let mut i: usize = 0;
        while i < self.running.len()
            invariant
                0 <= i <= self.running@.len(),
                forall|j: int| 0 <= j < i ==> self.running@[j] != (page, epoch),
            decreases self.running@.len() - i,
        {
            let e = &self.running[i];
            if e.0 == page && e.1 == epoch {
                proof {
                    assert(self.running@[i as int] == (page, epoch));
                }
                return Some(i);
            }
            proof {
                assert(self.running@[i as int] != (page, epoch));
            }
            i = i + 1;
        }
        proof {
            assert(!self.running@.contains((page, epoch)));
        }
        None
    }

    /// The position of a build `(page, is_left, rect)` in the in-flight set.
    fn building_position(&self, page: usize, is_left: bool, rect: &PanelRect) -> (r: Option<usize>)
        ensures
            match r {
                Some(i) => i < self.building@.len() && self.building@[i as int] == (
                    page,
                    is_left,
                    *rect,
                ),
                None => !self.building@.contains((page, is_left, *rect)),
            },
    {
        let mut i: usize = 0;
        while i < self.building.len()
            invariant
                0 <= i <= self.building@.len(),
                forall|j: int| 0 <= j < i ==> self.building@[j] != (page, is_left, *rect),
            decreases self.building@.len() - i,
        {
            let e = &self.building[i];
            if e.0 == page && e.1 == is_left && e.2 == *rect {
                proof {
                    assert(self.building@[i as int] == (page, is_left, *rect));
                }
                return Some(i);
            }
            proof {
                assert(self.building@[i as int] != (page, is_left, *rect));
            }
            i = i + 1;
        }
        proof {
            assert(!self.building@.contains((page, is_left, *rect)));
        }
        None
    }

    /// Drains the completion of one fetch worker. The worker's permit is
    /// released and handed to the next queued fetch, if any. In the current
    /// epoch, a decoded bitmap is inserted into the page cache — never
    /// while its index is still tracked as fetching — and protocol builds
    /// are scheduled for the panels the page maps to; a failure marks the
    /// page as failed, never to be retried in this chapter. A completion
    /// carrying an earlier epoch is discarded without touching the caches.
    pub fn on_fetch_complete(
        &mut self,
        page: usize,
        epoch: u64,
        outcome: Option<V>,
        current: usize,
        left_rect: Option<PanelRect>,
        right_rect: Option<PanelRect>,
    ) -> (r: Actions)
        requires
            old(self).wf(),
        ensures
            final(self).wf(),
            old(self).running_seq().contains((page, epoch)) ==> final(self).saturated(),
            old(self).saturated() ==> final(self).saturated(),
            same_config(*old(self), *final(self)),
            final(self).proto_map() == old(self).proto_map(),
            !final(self).running_seq().contains((page, epoch)),
            forall|i: int|
                0 <= i < r.fetches@.len() ==> {
                    let f = #[trigger] r.fetches@[i];
                    &&& f.epoch == old(self).spec_epoch()
                    &&& final(self).spec_running(f.page)
                    &&& !old(self).spec_cached(f.page)
                    &&& !old(self).spec_failed(f.page)
                },
            // a message that matches no live worker changes nothing
            !old(self).running_seq().contains((page, epoch)) ==> {
                &&& final(self).page_map() == old(self).page_map()
                &&& final(self).failed_set() == old(self).failed_set()
                &&& final(self).queued_seq() == old(self).queued_seq()
                &&& final(self).running_seq() == old(self).running_seq()
                &&& final(self).building_seq() == old(self).building_seq()
                &&& r.fetches@ =~= Seq::<FetchRequest>::empty()
                &&& r.protos@ =~= Seq::<ProtoRequest>::empty()
                &&& r.evicted is None
            },
            // the permit comes back and is refilled from the queue
            old(self).running_seq().contains((page, epoch)) ==> final(self).permits_held()
                == old(self).permits_held() - 1 + r.fetches@.len(),
            // a completion from an earlier chapter is discarded
            (epoch != old(self).spec_epoch()
                && old(self).running_seq().contains((page, epoch))) ==> {
                &&& final(self).page_map() == old(self).page_map()
                &&& final(self).failed_set() == old(self).failed_set()
                &&& final(self).building_seq() == old(self).building_seq()
                &&& r.protos@ =~= Seq::<ProtoRequest>::empty()
                &&& r.evicted is None
            },
            match outcome {
                Some(bitmap) => (epoch == old(self).spec_epoch()
                    && old(self).running_seq().contains((page, epoch))) ==> {
                    &&& final(self).spec_cached(page)
                    &&& final(self).page_map()[page] == bitmap
                    &&& !final(self).spec_fetching(page)
                    &&& final(self).failed_set() == old(self).failed_set()
                    &&& (match r.evicted {
                        None => final(self).page_map() == old(self).page_map().insert(
                            page,
                            bitmap,
                        ),
                        Some(ek) => ek != page && old(self).spec_cached(ek)
                            && final(self).page_map() == old(self).page_map().insert(
                            page,
                            bitmap,
                        ).remove(ek),
                    })
                    &&& final(self).proto_settled(
                        page,
                        false,
                        if spec_interested_right(page, current) {
                            right_rect
                        } else {
                            None
                        },
                    )
                    &&& final(self).proto_settled(
                        page,
                        true,
                        if spec_interested_left(page, current) {
                            left_rect
                        } else {
                            None
                        },
                    )
                },
                None => (epoch == old(self).spec_epoch() && old(self).running_seq().contains(
                    (page, epoch),
                )) ==> {
                    &&& final(self).page_map() == old(self).page_map()
                    &&& final(self).failed_set() == old(self).failed_set().insert(page)
                    &&& !final(self).spec_fetching(page)
                    &&& r.protos@ =~= Seq::<ProtoRequest>::empty()
                    &&& r.evicted is None
                },
            },
    {
        let mut actions = Actions::new();
        let position = self.running_position(page, epoch);
        let idx = match position {
            None => {
                return actions;
            },
            Some(idx) => idx,
        };
        let ghost r0 = self.running@;
        let _ = self.running.remove(idx);
        let ghost r1 = self.running@;
        proof {
            assert(r1 =~= r0.remove(idx as int));
            assert(forall|t: int| 0 <= t < idx ==> r1[t] == r0[t]);
            assert(forall|t: int| idx <= t < r1.len() ==> r1[t] == r0[t + 1]);
            assert forall|x: (usize, u64)| r1.contains(x) implies r0.contains(x) by {
                let t = choose|t: int| 0 <= t < r1.len() && r1[t] == x;
                if t < idx {
                    assert(r0[t] == x);
                } else {
                    assert(r0[t + 1] == x);
                }
            }
            assert forall|i2: int, j2: int| 0 <= i2 < j2 < r1.len() implies r1[i2] != r1[j2] by {
                if j2 < idx {
                } else if i2 >= idx {
                    assert(r1[i2] == r0[i2 + 1] && r1[j2] == r0[j2 + 1]);
                } else {
                    assert(r1[i2] == r0[i2] && r1[j2] == r0[j2 + 1]);
                }
            }
            assert(!r1.contains((page, epoch))) by {
                if r1.contains((page, epoch)) {
                    let t = choose|t: int| 0 <= t < r1.len() && r1[t] == (page, epoch);
                    if t < idx {
                        assert(r0[t] == (page, epoch) && r0[idx as int] == (page, epoch));
                    } else {
                        assert(r0[t + 1] == (page, epoch) && r0[idx as int] == (page, epoch));
                    }
                }
            }
            assert(self.wf());
        }
        if epoch == self.epoch {
            match outcome {
                Some(bitmap) => {
                    proof {
                        assert(r0[idx as int].1 == self.epoch && r0[idx as int].0 == page);
                        assert(page < self.page_count && !self.pages@.contains_key(page)
                            && !self.failed@.contains(page));
                        assert(!self.queued@.contains(page)) by {
                            if self.queued@.contains(page) {
                                let t = choose|t: int|
                                    0 <= t < self.queued@.len() && self.queued@[t] == page;
                                assert(!r0.contains((page, self.epoch)));
                            }
                        }
                    }
                    let ghost pg0 = self.pages@;
                    let evicted = self.pages.put(page, bitmap);
                    match evicted {
                        Some(e) => {
                            actions.evicted = Some(e.0);
                        },
                        None => {},
                    }
                    proof {
                        assert forall|t: int|
                            0 <= t < self.queued@.len() implies !self.pages@.contains_key(
                            #[trigger] self.queued@[t],
                        ) by {
                            assert(self.queued@[t] != page);
                        }
                        assert forall|t: int|
                            0 <= t < r1.len() && (#[trigger] r1[t]).1 == self.epoch
                            implies !self.pages@.contains_key(r1[t].0) by {
                            assert(r1[t] != (page, self.epoch));
                            assert(r1[t].0 != page);
                        }
                        assert forall|t: int|
                            0 <= t < self.failed@.len() implies !self.pages@.contains_key(
                            #[trigger] self.failed@[t],
                        ) by {
                            assert(self.failed@[t] != page);
                        }
                        assert(self.wf());
                    }
                    let sides = interested_sides(page, current);
                    let ghost s_mid = *self;
                    if sides.0 {
                        self.request_proto(page, false, right_rect, &mut actions);
                    }
                    let ghost s_r1 = *self;
                    if sides.1 {
                        self.request_proto(page, true, left_rect, &mut actions);
                    }
                    proof {
                        assert(self.proto_settled(
                            page,
                            false,
                            if spec_interested_right(page, current) {
                                right_rect
                            } else {
                                None
                            },
                        )) by {
                            if spec_interested_right(page, current) {
                                match right_rect {
                                    Some(rect) => {
                                        if self.spec_cached(page) && spec_stale(
                                            self.proto_map(),
                                            (page, false),
                                            rect,
                                        ) {
                                            assert(s_r1.spec_building(page, false, rect));
                                            let t = choose|t: int|
                                                0 <= t < s_r1.building_seq().len()
                                                    && s_r1.building_seq()[t] == (
                                                page,
                                                false,
                                                rect,
                                            );
                                            assert(self.building_seq()[t] == (page, false, rect));
                                            assert(self.building_seq().contains(
                                                (page, false, rect),
                                            ));
                                        }
                                    },
                                    None => {},
                                }
                            }
                        }
                        assert(self.proto_settled(
                            page,
                            true,
                            if spec_interested_left(page, current) {
                                left_rect
                            } else {
                                None
                            },
                        ));
                    }
                },
                None => {
                    proof {
                        assert(r0[idx as int].1 == self.epoch && r0[idx as int].0 == page);
                        assert(page < self.page_count && !self.pages@.contains_key(page)
                            && !self.failed@.contains(page));
                    }
                    let ghost f0 = self.failed@;
                    self.failed.push(page);
                    proof {
                        assert(self.failed@ == f0.push(page));
                        assert(forall|t: int| 0 <= t < f0.len() ==> self.failed@[t] == f0[t]);
                        assert(self.failed@[f0.len() as int] == page);
                        assert(self.failed@.to_set() =~= f0.to_set().insert(page)) by {
                            assert forall|x: usize| self.failed@.contains(x) implies f0.contains(
                                x,
                            ) || x == page by {
                                let t = choose|t: int|
                                    0 <= t < self.failed@.len() && self.failed@[t] == x;
                                if t < f0.len() {
                                    assert(f0[t] == x);
                                }
                            }
                            assert forall|x: usize|
                                f0.contains(x) || x == page implies self.failed@.contains(x) by {
                                if f0.contains(x) {
                                    let t = choose|t: int| 0 <= t < f0.len() && f0[t] == x;
                                    assert(self.failed@[t] == x);
                                } else {
                                    assert(self.failed@[f0.len() as int] == x);
                                }
                            }
                        }
                        assert forall|t: int|
                            0 <= t < self.queued@.len() implies !self.failed@.contains(
                            #[trigger] self.queued@[t],
                        ) by {
                            assert(self.queued@[t] != page) by {
                                if self.queued@[t] == page {
                                    assert(!r0.contains((page, self.epoch)));
                                }
                            }
                            if self.failed@.contains(self.queued@[t]) {
                                let u = choose|u: int|
                                    0 <= u < self.failed@.len() && self.failed@[u]
                                        == self.queued@[t];
                                assert(u < f0.len() ==> f0.contains(self.queued@[t]));
                            }
                        }
                        assert forall|t: int|
                            0 <= t < r1.len() && (#[trigger] r1[t]).1 == self.epoch
                            implies !self.failed@.contains(r1[t].0) by {
                            assert(r1[t].0 != page);
                            if self.failed@.contains(r1[t].0) {
                                let u = choose|u: int|
                                    0 <= u < self.failed@.len() && self.failed@[u] == r1[t].0;
                                assert(u < f0.len() ==> f0.contains(r1[t].0));
                            }
                        }
                        assert(self.wf());
                    }
                },
            }
        }
        let ghost pre_dispatch = *self;
        self.dispatch(&mut actions);
        proof {
            let ep = old(self).spec_epoch();
            let q_full = pre_dispatch.queued_seq();
            let k = actions.fetches@.len() as int;
            assert(actions.fetches@ =~= Seq::new(
                k as nat,
                |t: int| FetchRequest { page: q_full[t], epoch: ep },
            ));
            assert(self.running_seq() =~= pre_dispatch.running_seq() + Seq::new(
                k as nat,
                |t: int| (q_full[t], ep),
            ));
            assert forall|t: int| 0 <= t < k implies {
                let f = #[trigger] actions.fetches@[t];
                &&& f.epoch == ep
                &&& final(self).spec_running(f.page)
                &&& !old(self).spec_cached(f.page)
                &&& !old(self).spec_failed(f.page)
            } by {
                let f = actions.fetches@[t];
                assert(f.page == q_full[t]);
                assert(self.running_seq()[pre_dispatch.running_seq().len() + t] == (f.page, ep));
                assert(self.running_seq().contains((f.page, ep)));
                assert(!old(self).pages@.contains_key(q_full[t]));
                assert(!old(self).failed@.contains(q_full[t]));
            }
            assert(!self.running_seq().contains((page, epoch))) by {
                if self.running_seq().contains((page, epoch)) {
                    let t = choose|t: int|
                        0 <= t < self.running_seq().len() && self.running_seq()[t] == (
                            page,
                            epoch,
                        );
                    if t < pre_dispatch.running_seq().len() {
                        assert(r1.contains((page, epoch)));
                    } else {
                        let u = t - pre_dispatch.running_seq().len();
                        assert(self.running_seq()[t] == (q_full[u], ep));
                        assert(q_full[u] == page && ep == epoch);
                        assert(!pre_dispatch.queued@.contains(page)) by {
                            assert(!r0.contains((page, self.epoch)) || true);
                        }
                        assert(pre_dispatch.queued@[u] == page);
                        assert(!r1.contains((page, ep)));
                        assert(pre_dispatch.wf());
                    }
                }
            }
            if epoch == ep && r0.contains((page, epoch)) {
                assert(!self.spec_fetching(page)) by {
                    assert(!pre_dispatch.queued@.contains(page));
                    if self.spec_queued(page) {
                        let t = choose|t: int|
                            0 <= t < self.queued@.len() && self.queued@[t] == page;
                        assert(self.queued@ == q_full.skip(k));
                        assert(q_full[t + k] == page);
                        assert(q_full.contains(page));
                    }
                }
            }
        }
        actions
    }

    /// Drains the completion of one protocol build: retires the in-flight
    /// entry and, in the current epoch, stores the protocol keyed by
    /// (page, side) together with the rectangle it was built for. A
    /// completion carrying an earlier epoch is discarded.
    pub fn on_proto_complete(
        &mut self,
        page: usize,
        is_left: bool,
        epoch: u64,
        rect: PanelRect,
        proto: P,
    )
        requires
            old(self).wf(),
        ensures
            final(self).wf(),
            same_config(*old(self), *final(self)),
            final(self).page_map() == old(self).page_map(),
            final(self).queued_seq() == old(self).queued_seq(),
            final(self).running_seq() == old(self).running_seq(),
            final(self).failed_set() == old(self).failed_set(),
            !final(self).spec_building(page, is_left, rect),
            forall|t: (usize, bool, PanelRect)|
                t != (page, is_left, rect) ==> (final(self).building_seq().contains(t)
                    == old(self).building_seq().contains(t)),
            epoch == old(self).spec_epoch() ==> final(self).proto_map()
                == old(self).proto_map().insert((page, is_left), (rect, proto)),
            epoch != old(self).spec_epoch() ==> final(self).proto_map() == old(self).proto_map(),
    {
        let position = self.building_position(page, is_left, &rect);
        match position {
            Some(idx) => {
                let ghost b0 = self.building@;
                let _ = self.building.remove(idx);
                proof {
                    let b1 = self.building@;
                    assert(b1 =~= b0.remove(idx as int));
                    assert(forall|t: int| 0 <= t < idx ==> b1[t] == b0[t]);
                    assert(forall|t: int| idx <= t < b1.len() ==> b1[t] == b0[t + 1]);
                    assert forall|i2: int, j2: int|
                        0 <= i2 < j2 < b1.len() implies b1[i2] != b1[j2] by {
                        if j2 < idx {
                        } else if i2 >= idx {
                            assert(b1[i2] == b0[i2 + 1] && b1[j2] == b0[j2 + 1]);
                        } else {
                            assert(b1[i2] == b0[i2] && b1[j2] == b0[j2 + 1]);
                        }
                    }
                    assert(!b1.contains((page, is_left, rect))) by {
                        if b1.contains((page, is_left, rect)) {
                            let t = choose|t: int|
                                0 <= t < b1.len() && b1[t] == (page, is_left, rect);
                            if t < idx {
                                assert(b0[t] == (page, is_left, rect));
                            } else {
                                assert(b0[t + 1] == (page, is_left, rect));
                            }
                            assert(b0[idx as int] == (page, is_left, rect));
                        }
                    }
                    assert forall|t: (usize, bool, PanelRect)|
                        t != (page, is_left, rect) implies (b1.contains(t) == b0.contains(
                        t,
                    )) by {
                        if b0.contains(t) {
                            let u = choose|u: int| 0 <= u < b0.len() && b0[u] == t;
                            assert(u != idx);
                            if u < idx {
                                assert(b1[u] == t);
                            } else {
                                assert(b1[u - 1] == t);
                            }
                        }
                        if b1.contains(t) {
                            let u = choose|u: int| 0 <= u < b1.len() && b1[u] == t;
                            if u < idx {
                                assert(b0[u] == t);
                            } else {
                                assert(b0[u + 1] == t);
                            }
                        }
                    }
                }
            },
            None => {},
        }
        if epoch == self.epoch {
            self.protos.put(page, is_left, rect, proto);
        }
    }

    /// Whether `page` is waiting for a permit.
    fn queued_contains(&self, page: usize) -> (r: bool)
        ensures
            r == self.spec_queued(page),
    {
        let mut i: usize = 0;
        while i < self.queued.len()
            invariant
                0 <= i <= self.queued@.len(),
                forall|j: int| 0 <= j < i ==> self.queued@[j] != page,
            decreases self.queued@.len() - i,
        {
            if self.queued[i] == page {
                proof {
                    assert(self.queued@.contains(page));
                }
                return true;
            }
            i = i + 1;
        }
        proof {
            assert(!self.queued@.contains(page));
        }
        false
    }

    /// Whether `page` holds a permit in the current epoch.
    fn running_current(&self, page: usize) -> (r: bool)
        ensures
            r == self.spec_running(page),
    {
        match self.running_position(page, self.epoch) {
            Some(_) => {
                proof {
                    assert(self.running@.contains((page, self.epoch)));
                }
                true
            },
            None => false,
        }
    }
}

} // verus!
