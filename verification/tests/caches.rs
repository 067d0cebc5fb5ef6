use yomu::geometry::PanelRect;
use yomu::page_cache::PageCache;
use yomu::proto_cache::ProtocolCache;

#[test]
fn page_cache_put_and_get() {
    let mut cache: PageCache<u32> = PageCache::new(4);
    assert_eq!(cache.len(), 0);
    assert!(!cache.contains_page(0));
    cache.put(0, 10);
    cache.put(1, 11);
    assert_eq!(cache.len(), 2);
    assert!(cache.contains_page(0));
    assert!(cache.contains_page(1));
    assert_eq!(cache.get(0), Some(&10));
    assert_eq!(cache.get(1), Some(&11));
    assert_eq!(cache.get(2), None);
}

#[test]
fn page_cache_replace_keeps_one_entry() {
    let mut cache: PageCache<u32> = PageCache::new(4);
    cache.put(3, 30);
    cache.put(3, 31);
    assert_eq!(cache.len(), 1);
    assert_eq!(cache.get(3), Some(&31));
}

#[test]
fn page_cache_evicts_least_recently_used() {
    let mut cache: PageCache<u32> = PageCache::new(2);
    cache.put(0, 10);
    cache.put(1, 11);
    // touch page 0 so page 1 becomes the least recently used
    assert_eq!(cache.get(0), Some(&10));
    let evicted = cache.put(2, 12);
    assert_eq!(evicted, Some((1, 11)));
    assert!(cache.contains_page(0));
    assert!(!cache.contains_page(1));
    assert!(cache.contains_page(2));
    assert_eq!(cache.len(), 2);
}

#[test]
fn page_cache_clear_empties() {
    let mut cache: PageCache<u32> = PageCache::new(4);
    cache.put(0, 1);
    cache.put(1, 2);
    cache.clear();
    assert_eq!(cache.len(), 0);
    assert!(!cache.contains_page(0));
    assert!(!cache.contains_page(1));
}

#[test]
fn proto_cache_put_and_get() {
    let mut cache: ProtocolCache<u32> = ProtocolCache::new();
    let rect = PanelRect::new(0, 0, 40, 20);
    assert!(cache.get(0, false).is_none());
    cache.put(0, false, rect, 7);
    let entry = cache.get(0, false).expect("entry for the right panel of page 0");
    assert_eq!(entry.0, rect);
    assert_eq!(entry.1, 7);
    // the left panel of the same page is a different key
    assert!(cache.get(0, true).is_none());
}

#[test]
fn proto_cache_stale_iff_size_differs() {
    let mut cache: ProtocolCache<u32> = ProtocolCache::new();
    let built = PanelRect::new(2, 3, 40, 20);
    cache.put(5, true, built, 1);
    // not stale for the rectangle it was built for
    assert!(!cache.is_stale(5, true, &built));
    // position is irrelevant, only width and height decide
    assert!(!cache.is_stale(5, true, &PanelRect::new(9, 9, 40, 20)));
    // any other size is stale
    assert!(cache.is_stale(5, true, &PanelRect::new(2, 3, 41, 20)));
    assert!(cache.is_stale(5, true, &PanelRect::new(2, 3, 40, 19)));
    // a missing entry counts as stale
    assert!(cache.is_stale(6, true, &built));
}

#[test]
fn proto_cache_clear_empties() {
    let mut cache: ProtocolCache<u32> = ProtocolCache::new();
    let rect = PanelRect::new(0, 0, 10, 10);
    cache.put(0, false, rect, 1);
    cache.put(0, true, rect, 2);
    cache.clear();
    assert!(cache.get(0, false).is_none());
    assert!(cache.get(0, true).is_none());
}
