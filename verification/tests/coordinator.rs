use yomu::coordinator::{interested_sides, Coordinator, FetchRequest};
use yomu::geometry::PanelRect;

/// Drives every returned fetch to a successful completion, checking the
/// permit bound and the cache/fetching exclusivity after every drain.
fn complete_all(coord: &mut Coordinator<u32, u32>, start: Vec<FetchRequest>, limit: usize) {
    let mut pending = start;
    while let Some(req) = pending.pop() {
        let acts = coord.on_fetch_complete(req.page, req.epoch, Some(req.page as u32), 0, None, None);
        assert!(coord.permits_in_use() <= limit);
        assert!(coord.contains_page(req.page));
        assert!(!coord.is_fetching(req.page));
        pending.extend(acts.fetches);
    }
}

#[test]
fn opening_a_chapter_fetches_visible_spread_first() {
    // chapter has 5 pages, concurrency limit 2
    let mut coord: Coordinator<u32, u32> = Coordinator::new(2, 20);
    coord.invalidate_chapter(5);
    let acts = coord.ensure_spread(0, None, None);
    let pages: Vec<usize> = acts.fetches.iter().map(|f| f.page).collect();
    // the visible spread goes out first, and never more than 2 in flight
    assert_eq!(pages, vec![0, 1]);
    assert_eq!(coord.permits_in_use(), 2);
    for p in 0..5 {
        assert!(coord.is_fetching(p), "page {} should be queued or running", p);
    }
    complete_all(&mut coord, acts.fetches, 2);
    // after all complete, the cache contains exactly the five pages
    for p in 0..5 {
        assert!(coord.contains_page(p));
    }
    assert!(!coord.contains_page(5));
    assert_eq!(coord.permits_in_use(), 0);
}

#[test]
fn ensure_spread_is_idempotent() {
    let mut coord: Coordinator<u32, u32> = Coordinator::new(2, 20);
    coord.invalidate_chapter(5);
    let first = coord.ensure_spread(0, None, None);
    assert_eq!(first.fetches.len(), 2);
    // a second call with no intervening completions spawns nothing
    let second = coord.ensure_spread(0, None, None);
    assert!(second.fetches.is_empty());
    assert!(second.protos.is_empty());
}

#[test]
fn advancing_onto_cached_pages_spawns_no_fetch() {
    // 6-page chapter; background warm-up has cached everything
    let mut coord: Coordinator<u32, u32> = Coordinator::new(8, 20);
    coord.invalidate_chapter(6);
    let acts = coord.ensure_spread(0, None, None);
    assert_eq!(acts.fetches.len(), 6);
    complete_all(&mut coord, acts.fetches, 8);
    // user advances the spread to pages 2 and 3, already cached
    let acts = coord.ensure_spread(2, None, None);
    assert!(acts.fetches.is_empty());
    assert_eq!(coord.cached_page(2), Some(&2));
    assert_eq!(coord.cached_page(3), Some(&3));
}

#[test]
fn failed_fetch_is_recorded_and_never_retried() {
    let mut coord: Coordinator<u32, u32> = Coordinator::new(8, 20);
    coord.invalidate_chapter(3);
    let acts = coord.ensure_spread(0, None, None);
    let epoch = coord.current_epoch();
    assert_eq!(acts.fetches.len(), 3);
    // page 1 fails with a network error
    let after = coord.on_fetch_complete(1, epoch, None, 0, None, None);
    assert!(after.fetches.is_empty());
    assert!(!coord.contains_page(1));
    assert!(coord.has_failed(1));
    assert!(!coord.is_fetching(1));
    // the others complete
    let _ = coord.on_fetch_complete(0, epoch, Some(0), 0, None, None);
    let _ = coord.on_fetch_complete(2, epoch, Some(2), 0, None, None);
    // re-entering the same spread spawns no new fetch for the failed page
    let again = coord.ensure_spread(0, None, None);
    assert!(again.fetches.is_empty());
    assert!(coord.has_failed(1));
}

#[test]
fn chapter_change_discards_stale_completions() {
    let mut coord: Coordinator<u32, u32> = Coordinator::new(2, 20);
    coord.invalidate_chapter(2);
    let old_epoch = coord.current_epoch();
    let acts = coord.ensure_spread(0, None, None);
    assert_eq!(acts.fetches.len(), 2);
    assert_eq!(coord.permits_in_use(), 2);
    // a new chapter opens while both fetches are still in flight
    coord.invalidate_chapter(3);
    assert_ne!(coord.current_epoch(), old_epoch);
    assert!(!coord.is_fetching(0));
    assert!(!coord.is_fetching(1));
    // the old workers still hold their permits until they drain
    assert_eq!(coord.permits_in_use(), 2);
    // their completions are discarded and do not repopulate the caches
    let drained = coord.on_fetch_complete(0, old_epoch, Some(40), 0, None, None);
    assert!(drained.protos.is_empty());
    assert!(!coord.contains_page(0));
    assert_eq!(coord.permits_in_use(), 1);
    let _ = coord.on_fetch_complete(1, old_epoch, Some(41), 0, None, None);
    assert_eq!(coord.permits_in_use(), 0);
    // a stale protocol completion is discarded too
    let rect = PanelRect::new(0, 0, 10, 10);
    coord.on_proto_complete(0, false, old_epoch, rect, 9);
    assert!(coord.cached_proto(0, false).is_none());
}

#[test]
fn stale_completion_frees_a_permit_for_queued_work() {
    let mut coord: Coordinator<u32, u32> = Coordinator::new(1, 20);
    coord.invalidate_chapter(1);
    let old_epoch = coord.current_epoch();
    let acts = coord.ensure_spread(0, None, None);
    assert_eq!(acts.fetches.len(), 1);
    // new chapter; its only fetch has to wait for the old worker's permit
    coord.invalidate_chapter(2);
    let acts = coord.ensure_spread(0, None, None);
    assert!(acts.fetches.is_empty());
    assert!(coord.is_fetching(0));
    // the old completion drains: discarded, but its permit starts new work
    let drained = coord.on_fetch_complete(0, old_epoch, Some(1), 0, None, None);
    assert_eq!(drained.fetches.len(), 1);
    assert_eq!(drained.fetches[0].page, 0);
    assert_eq!(drained.fetches[0].epoch, coord.current_epoch());
    assert!(!coord.contains_page(0));
}

#[test]
fn resize_invalidates_and_rebuilds_protocol() {
    let mut coord: Coordinator<u32, u32> = Coordinator::new(2, 20);
    coord.invalidate_chapter(2);
    let old_rect = PanelRect::new(0, 0, 40, 20);
    let acts = coord.ensure_spread(0, None, Some(old_rect));
    // nothing decoded yet, so no protocol can be built
    assert!(acts.protos.is_empty());
    let epoch = coord.current_epoch();
    // page 0 decodes; it is the right panel, so a build is scheduled for it
    let after = coord.on_fetch_complete(0, epoch, Some(100), 0, None, Some(old_rect));
    assert_eq!(after.protos.len(), 1);
    let req = after.protos[0];
    assert_eq!(req.page, 0);
    assert!(!req.is_left);
    assert_eq!(req.rect, old_rect);
    coord.on_proto_complete(req.page, req.is_left, req.epoch, req.rect, 777);
    assert!(!coord.proto_is_stale(0, false, &old_rect));
    // the terminal is resized: the cached protocol is stale for the new
    // rectangle and the next ensure_spread schedules a rebuild
    let new_rect = PanelRect::new(0, 0, 50, 22);
    assert!(coord.proto_is_stale(0, false, &new_rect));
    let acts = coord.ensure_spread(0, None, Some(new_rect));
    assert_eq!(acts.protos.len(), 1);
    assert_eq!(acts.protos[0].rect, new_rect);
    coord.on_proto_complete(0, false, epoch, new_rect, 778);
    assert!(!coord.proto_is_stale(0, false, &new_rect));
    let entry = coord.cached_proto(0, false).expect("rebuilt protocol");
    assert_eq!(entry.1, 778);
}

#[test]
fn completion_near_the_spread_schedules_interested_panels() {
    let mut coord: Coordinator<u32, u32> = Coordinator::new(8, 20);
    coord.invalidate_chapter(6);
    let left = PanelRect::new(0, 0, 40, 20);
    let right = PanelRect::new(40, 0, 40, 20);
    let acts = coord.ensure_spread(0, Some(left), Some(right));
    let epoch = coord.current_epoch();
    assert_eq!(acts.fetches.len(), 6);
    // page 1 is the left panel of the current spread
    let after = coord.on_fetch_complete(1, epoch, Some(1), 0, Some(left), Some(right));
    assert_eq!(after.protos.len(), 1);
    assert!(after.protos[0].is_left);
    assert_eq!(after.protos[0].rect, left);
    // page 4 is on neither this spread nor the next: no build yet
    let after = coord.on_fetch_complete(4, epoch, Some(4), 0, Some(left), Some(right));
    assert!(after.protos.is_empty());
    // page 2 is the right panel of the next spread
    let after = coord.on_fetch_complete(2, epoch, Some(2), 0, Some(left), Some(right));
    assert_eq!(after.protos.len(), 1);
    assert!(!after.protos[0].is_left);
}

#[test]
fn interest_window_matches_the_two_spreads() {
    assert_eq!(interested_sides(4, 4), (true, false));
    assert_eq!(interested_sides(5, 4), (false, true));
    assert_eq!(interested_sides(6, 4), (true, false));
    assert_eq!(interested_sides(7, 4), (false, true));
    assert_eq!(interested_sides(8, 4), (false, false));
    assert_eq!(interested_sides(3, 4), (false, false));
}

#[test]
fn eviction_is_reported_while_draining() {
    let mut coord: Coordinator<u32, u32> = Coordinator::new(1, 2);
    coord.invalidate_chapter(3);
    let epoch = coord.current_epoch();
    let mut pending = coord.ensure_spread(0, None, None).fetches;
    let mut evicted = Vec::new();
    while let Some(req) = pending.pop() {
        let acts = coord.on_fetch_complete(req.page, req.epoch, Some(req.page as u32), 0, None, None);
        assert_eq!(req.epoch, epoch);
        if let Some(e) = acts.evicted {
            evicted.push(e);
        }
        pending.extend(acts.fetches);
    }
    // three pages through a two-page cache: exactly one eviction
    assert_eq!(evicted.len(), 1);
    let resident = (0..3).filter(|p| coord.contains_page(*p)).count();
    assert_eq!(resident, 2);
}

#[test]
fn single_page_chapter_has_no_left_panel_page() {
    let mut coord: Coordinator<u32, u32> = Coordinator::new(4, 20);
    coord.invalidate_chapter(1);
    let acts = coord.ensure_spread(0, None, None);
    let pages: Vec<usize> = acts.fetches.iter().map(|f| f.page).collect();
    assert_eq!(pages, vec![0]);
    let epoch = coord.current_epoch();
    let after = coord.on_fetch_complete(0, epoch, Some(0), 0, None, None);
    assert!(after.fetches.is_empty());
    assert!(coord.contains_page(0));
}

#[test]
fn spurious_completion_changes_nothing() {
    let mut coord: Coordinator<u32, u32> = Coordinator::new(2, 20);
    coord.invalidate_chapter(2);
    let epoch = coord.current_epoch();
    // no worker was ever started for page 7
    let acts = coord.on_fetch_complete(7, epoch, Some(7), 0, None, None);
    assert!(acts.fetches.is_empty());
    assert!(acts.protos.is_empty());
    assert!(!coord.contains_page(7));
    assert_eq!(coord.permits_in_use(), 0);
}
