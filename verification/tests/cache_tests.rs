use backend_service::cache::{DataStorageCache, Representation};
use backend_service::errors::AppError;
use backend_service::recency::CacheEntry;
use indexmap::IndexMap;

fn row(cells: &[(&str, &str)]) -> IndexMap<String, String> {
    let mut row = IndexMap::new();
    for (key, value) in cells {
        row.insert(key.to_string(), value.to_string());
    }
    row
}

#[test]
fn a_new_cache_is_empty() {
    let mut cache = DataStorageCache::new(2, 2, 2);
    assert_eq!(cache.get_text("/r/a"), None);
    assert_eq!(cache.get_bytes("/r/a"), None);
    assert!(cache.get_rows("/r/a").is_none());
    let sizes = cache.get_caches_size();
    assert_eq!(
        sizes,
        vec![
            ("String".to_string(), 0, 0),
            ("Vec<u8>".to_string(), 0, 0),
            ("CSV".to_string(), 0, 0)
        ]
    );
}

#[test]
fn what_is_stored_is_found() {
    let mut cache = DataStorageCache::new(2, 2, 2);
    cache.put_text("/r/a".to_string(), "alpha".to_string());
    cache.put_bytes("/r/a".to_string(), vec![1, 2, 3]);
    cache.put_rows("/r/a".to_string(), vec![row(&[("k", "v")])]);
    assert_eq!(cache.get_text("/r/a"), Some("alpha".to_string()));
    assert_eq!(cache.get_bytes("/r/a"), Some(vec![1, 2, 3]));
    assert_eq!(cache.get_rows("/r/a"), Some(vec![row(&[("k", "v")])]));
    assert_eq!(cache.get_text("/r/b"), None);
}

#[test]
fn a_store_replaces_the_entry_of_the_same_path() {
    let mut cache = DataStorageCache::new(2, 2, 2);
    cache.put_text("/r/a".to_string(), "old".to_string());
    cache.put_text("/r/a".to_string(), "new".to_string());
    assert_eq!(cache.get_text("/r/a"), Some("new".to_string()));
    assert_eq!(cache.get_caches_size()[0], ("String".to_string(), 1, 3));
}

#[test]
fn one_key_too_many_evicts_the_least_recently_used() {
    let mut cache = DataStorageCache::new(3, 3, 3);
    cache.put_bytes("/r/1".to_string(), vec![1]);
    cache.put_bytes("/r/2".to_string(), vec![2]);
    cache.put_bytes("/r/3".to_string(), vec![3]);
    cache.put_bytes("/r/4".to_string(), vec![4]);
    assert_eq!(cache.get_caches_size()[1], ("Vec<u8>".to_string(), 3, 3));
    assert_eq!(cache.get_bytes("/r/1"), None);
    assert_eq!(cache.get_bytes("/r/2"), Some(vec![2]));
    assert_eq!(cache.get_bytes("/r/3"), Some(vec![3]));
    assert_eq!(cache.get_bytes("/r/4"), Some(vec![4]));
}

#[test]
fn a_lookup_promotes_the_entry() {
    let mut cache = DataStorageCache::new(2, 2, 2);
    cache.put_text("/r/1".to_string(), "one".to_string());
    cache.put_text("/r/2".to_string(), "two".to_string());
    assert_eq!(cache.get_text("/r/1"), Some("one".to_string()));
    cache.put_text("/r/3".to_string(), "three".to_string());
    assert_eq!(cache.get_text("/r/2"), None);
    assert_eq!(cache.get_text("/r/1"), Some("one".to_string()));
    assert_eq!(cache.get_text("/r/3"), Some("three".to_string()));
}

#[test]
fn a_miss_promotes_nothing() {
    let mut cache = DataStorageCache::new(2, 2, 2);
    cache.put_text("/r/1".to_string(), "one".to_string());
    cache.put_text("/r/2".to_string(), "two".to_string());
    assert_eq!(cache.get_text("/r/9"), None);
    cache.put_text("/r/3".to_string(), "three".to_string());
    assert_eq!(cache.get_text("/r/1"), None);
    assert_eq!(cache.get_text("/r/2"), Some("two".to_string()));
}

#[test]
fn a_size_of_zero_gives_room_for_one() {
    let mut cache = DataStorageCache::new(0, 0, 0);
    cache.put_text("/r/1".to_string(), "one".to_string());
    assert_eq!(cache.get_text("/r/1"), Some("one".to_string()));
    cache.put_text("/r/2".to_string(), "two".to_string());
    assert_eq!(cache.get_text("/r/1"), None);
    assert_eq!(cache.get_text("/r/2"), Some("two".to_string()));
}

#[test]
fn the_representations_evict_on_their_own() {
    let mut cache = DataStorageCache::new(1, 2, 2);
    cache.put_text("/r/1".to_string(), "one".to_string());
    cache.put_bytes("/r/1".to_string(), vec![1]);
    cache.put_text("/r/2".to_string(), "two".to_string());
    cache.put_bytes("/r/2".to_string(), vec![2]);
    assert_eq!(cache.get_text("/r/1"), None);
    assert_eq!(cache.get_bytes("/r/1"), Some(vec![1]));
}

#[test]
fn invalidate_forgets_the_path_in_every_representation() {
    let mut cache = DataStorageCache::new(2, 2, 2);
    cache.put_text("/r/a".to_string(), "alpha".to_string());
    cache.put_bytes("/r/a".to_string(), vec![1]);
    cache.put_rows("/r/a".to_string(), vec![row(&[("k", "v")])]);
    cache.put_text("/r/b".to_string(), "beta".to_string());
    cache.invalidate("/r/a");
    assert_eq!(cache.get_text("/r/a"), None);
    assert_eq!(cache.get_bytes("/r/a"), None);
    assert!(cache.get_rows("/r/a").is_none());
    assert_eq!(cache.get_text("/r/b"), Some("beta".to_string()));
    cache.invalidate("/r/nothing");
    assert_eq!(cache.get_text("/r/b"), Some("beta".to_string()));
}

#[test]
fn sizes_count_entries_and_bytes() {
    let mut cache = DataStorageCache::new(4, 4, 4);
    cache.put_text("/r/a".to_string(), "héllo".to_string());
    cache.put_text("/r/b".to_string(), "x".to_string());
    cache.put_bytes("/r/a".to_string(), vec![0; 10]);
    cache.put_rows("/r/a".to_string(), vec![row(&[("ab", "c"), ("d", "")]), row(&[("я", "zz")])]);
    let sizes = cache.get_caches_size();
    assert_eq!(sizes[0], ("String".to_string(), 2, 7));
    assert_eq!(sizes[1], ("Vec<u8>".to_string(), 1, 10));
    assert_eq!(sizes[2], ("CSV".to_string(), 1, 8));
}

#[test]
fn get_or_load_loads_on_a_miss_and_not_on_a_hit() {
    let mut cache = DataStorageCache::new(2, 2, 2);
    let loaded = cache.get_or_load(Representation::Text, "/r/a", || {
        Ok(CacheEntry::Text("alpha".to_string()))
    });
    assert!(matches!(loaded, Ok(CacheEntry::Text(text)) if text == "alpha"));
    let again = cache.get_or_load(Representation::Text, "/r/a", || {
        Ok(CacheEntry::Text("other".to_string()))
    });
    assert!(matches!(again, Ok(CacheEntry::Text(text)) if text == "alpha"));
    assert_eq!(cache.get_text("/r/a"), Some("alpha".to_string()));
}

#[test]
fn get_or_load_keeps_nothing_of_a_failed_load() {
    let mut cache = DataStorageCache::new(2, 2, 2);
    let failed = cache.get_or_load(Representation::Bytes, "/r/a", || Err(AppError::FileNotFound));
    assert!(matches!(failed, Err(AppError::FileNotFound)));
    assert_eq!(cache.get_bytes("/r/a"), None);
    assert_eq!(cache.get_caches_size()[1], ("Vec<u8>".to_string(), 0, 0));
}

#[test]
fn get_or_load_refuses_a_content_of_another_representation() {
    let mut cache = DataStorageCache::new(2, 2, 2);
    let refused = cache.get_or_load(Representation::Bytes, "/r/a", || {
        Ok(CacheEntry::Text("alpha".to_string()))
    });
    assert!(matches!(refused, Err(AppError::CacheError(_))));
    assert_eq!(cache.get_bytes("/r/a"), None);
    assert_eq!(cache.get_text("/r/a"), None);
}

#[test]
fn get_or_load_promotes_the_entry_it_finds() {
    let mut cache = DataStorageCache::new(2, 2, 2);
    cache.put_bytes("/r/1".to_string(), vec![1]);
    cache.put_bytes("/r/2".to_string(), vec![2]);
    let hit = cache.get_or_load(Representation::Bytes, "/r/1", || Err(AppError::Unknown));
    assert!(matches!(hit, Ok(CacheEntry::Bytes(bytes)) if bytes == vec![1]));
    cache.put_bytes("/r/3".to_string(), vec![3]);
    assert_eq!(cache.get_bytes("/r/2"), None);
    assert_eq!(cache.get_bytes("/r/1"), Some(vec![1]));
}

#[test]
fn lookup_by_representation() {
    let mut cache = DataStorageCache::new(2, 2, 2);
    cache.put_bytes("/r/a".to_string(), vec![9]);
    assert!(matches!(
        cache.lookup(Representation::Bytes, "/r/a"),
        Some(CacheEntry::Bytes(bytes)) if bytes == vec![9]
    ));
    assert!(cache.lookup(Representation::Text, "/r/a").is_none());
}

#[test]
fn invalidate_all_forgets_everything() {
    let mut cache = DataStorageCache::new(2, 2, 2);
    cache.put_text("/r/a".to_string(), "alpha".to_string());
    cache.put_bytes("/r/b".to_string(), vec![1]);
    cache.put_rows("/r/c".to_string(), vec![row(&[("k", "v")])]);
    cache.invalidate_all();
    assert_eq!(cache.get_text("/r/a"), None);
    assert_eq!(cache.get_bytes("/r/b"), None);
    assert!(cache.get_rows("/r/c").is_none());
    cache.put_text("/r/1".to_string(), "one".to_string());
    cache.put_text("/r/2".to_string(), "two".to_string());
    cache.put_text("/r/3".to_string(), "three".to_string());
    assert_eq!(cache.get_caches_size()[0], ("String".to_string(), 2, 8));
}

#[test]
fn a_cache_of_the_largest_capacity_can_be_made() {
    let mut cache = DataStorageCache::new(usize::MAX, usize::MAX, usize::MAX);
    cache.put_text("/r/a".to_string(), "alpha".to_string());
    assert_eq!(cache.get_text("/r/a"), Some("alpha".to_string()));
}
