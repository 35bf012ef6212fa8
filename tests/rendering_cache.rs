use rendering_cache::graphics::{CachedGraphicsData, RenderingCache};
use rendering_cache::properties::{DependencyScope, PropertyStore, PropertyTracker};

fn constant(store: &PropertyStore, value: u32) -> CachedGraphicsData<u32> {
    CachedGraphicsData::new(store, move |s: DependencyScope| (value, s))
}

#[test]
fn starts_empty_in_generation_one() {
    let cache: RenderingCache<u32> = RenderingCache::default();
    assert_eq!(cache.generation(), 1);
    assert!(cache.get(0).is_none());
}

#[test]
fn insertions_without_removal_are_distinct() {
    let store = PropertyStore::new();
    let mut cache = RenderingCache::new();
    let mut seen: Vec<usize> = Vec::new();
    for v in 0..20u32 {
        let i = cache.insert(constant(&store, v));
        assert!(!seen.contains(&i));
        seen.push(i);
    }
    assert_eq!(seen, (0..20).collect::<Vec<usize>>());
    for (v, i) in seen.iter().enumerate() {
        assert_eq!(cache.get(*i).unwrap().data, v as u32);
    }
}

#[test]
fn removed_slot_is_reused_and_others_stay() {
    let store = PropertyStore::new();
    let mut cache = RenderingCache::new();
    let i0 = cache.insert(constant(&store, 10));
    let i1 = cache.insert(constant(&store, 11));
    let i2 = cache.insert(constant(&store, 12));
    assert_eq!((i0, i1, i2), (0, 1, 2));
    let removed = cache.remove(i1);
    assert_eq!(removed.data, 11);
    let i3 = cache.insert(constant(&store, 13));
    assert_eq!(i3, i1);
    assert_eq!(cache.get(i0).unwrap().data, 10);
    assert_eq!(cache.get(i2).unwrap().data, 12);
    assert_eq!(cache.get(i3).unwrap().data, 13);
    assert_eq!(cache.generation(), 1);
}

#[test]
fn last_freed_slot_is_reused_first() {
    let store = PropertyStore::new();
    let mut cache = RenderingCache::new();
    for v in 0..4u32 {
        cache.insert(constant(&store, v));
    }
    cache.remove(0);
    cache.remove(2);
    assert_eq!(cache.insert(constant(&store, 20)), 2);
    assert_eq!(cache.insert(constant(&store, 21)), 0);
    assert_eq!(cache.insert(constant(&store, 22)), 4);
}

#[test]
fn clear_bumps_generation_and_forgets_indices() {
    let store = PropertyStore::new();
    let mut cache = RenderingCache::new();
    assert_eq!(cache.generation(), 1);
    let i = cache.insert(constant(&store, 5));
    cache.clear();
    assert_eq!(cache.generation(), 2);
    assert!(cache.get(i).is_none());
    assert!(cache.get_mut(i).is_none());
    cache.clear();
    assert_eq!(cache.generation(), 3);
}

#[test]
fn index_reused_after_clear_is_told_apart_by_generation() {
    let store = PropertyStore::new();
    let mut cache = RenderingCache::new();
    let old_index = cache.insert(constant(&store, 1));
    let old_generation = cache.generation();
    cache.clear();
    let new_index = cache.insert(constant(&store, 2));
    assert_eq!(new_index, old_index);
    assert_ne!(cache.generation(), old_generation);
    assert_eq!(cache.get(new_index).unwrap().data, 2);
}

#[test]
fn never_inserted_index_is_not_found() {
    let store = PropertyStore::new();
    let mut cache = RenderingCache::new();
    cache.insert(constant(&store, 1));
    assert!(cache.get(1).is_none());
    assert!(cache.get(usize::MAX).is_none());
    assert!(cache.get_mut(7).is_none());
}

#[test]
fn remove_then_get_is_not_found() {
    let store = PropertyStore::new();
    let mut cache = RenderingCache::new();
    let i = cache.insert(constant(&store, 1));
    cache.remove(i);
    assert!(cache.get(i).is_none());
    assert!(cache.get_mut(i).is_none());
}

#[test]
fn get_mut_updates_in_place() {
    let store = PropertyStore::new();
    let mut cache = RenderingCache::new();
    let i = cache.insert(constant(&store, 1));
    cache.get_mut(i).unwrap().data = 42;
    assert_eq!(cache.get(i).unwrap().data, 42);
}

#[test]
fn entry_without_reads_is_never_dirty() {
    let mut store = PropertyStore::new();
    let p = store.add(3);
    let entry = constant(&store, 9);
    assert_eq!(entry.data, 9);
    assert!(!entry.dependency_tracker.is_dirty(&store));
    store.set(p, 4);
    store.add(8);
    assert!(!entry.dependency_tracker.is_dirty(&store));
}

#[test]
fn entry_is_dirty_after_its_property_changes_until_recomputed() {
    let mut store = PropertyStore::new();
    let p = store.add(3);
    let q = store.add(100);
    let mut entry = CachedGraphicsData::new(&store, |mut s: DependencyScope| {
        let v = s.read(&store, p);
        (v * 2, s)
    });
    assert_eq!(entry.data, 6);
    assert!(!entry.dependency_tracker.is_dirty(&store));
    store.set(q, 101);
    assert!(!entry.dependency_tracker.is_dirty(&store));
    store.set(p, 5);
    assert!(entry.dependency_tracker.is_dirty(&store));
    let data = entry.dependency_tracker.evaluate(&store, |mut s: DependencyScope| {
        let v = s.read(&store, p);
        (v * 2, s)
    });
    entry.data = data;
    assert_eq!(entry.data, 10);
    assert!(!entry.dependency_tracker.is_dirty(&store));
}

#[test]
fn tracker_without_evaluation_is_clean() {
    let mut store = PropertyStore::new();
    store.add(1);
    let tracker = PropertyTracker::new();
    assert!(!tracker.is_dirty(&store));
}

#[test]
fn property_store_reads_and_writes() {
    let mut store = PropertyStore::new();
    assert_eq!(store.len(), 0);
    let a = store.add(-7);
    let b = store.add(i64::MAX);
    assert_eq!((a, b), (0, 1));
    assert_eq!(store.get(b), i64::MAX);
    store.set(a, 12);
    assert_eq!(store.get(a), 12);
    assert_eq!(store.len(), 2);
}
