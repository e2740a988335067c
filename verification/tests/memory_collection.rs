use xmf::cache::KeyValueCollection;
use xmf::store::memory::MemoryCollection;

#[test]
fn test_collection_get_put() {
    let mut cache = MemoryCollection::new();

    // Initially, cache is empty
    assert!(cache.get("key1".as_bytes()).is_none());

    // Put a value without TTL
    cache.put("key1".as_bytes(), &123i32.to_be_bytes(), None);

    // Get the value
    assert_eq!(
        cache.get("key1".as_bytes()),
        Some(123i32.to_be_bytes().to_vec())
    );

    // Get a non-existent key
    assert!(cache.get("key2".as_bytes()).is_none());
}

#[test]
fn test_collection_ttl_expiration() {
    let mut cache = MemoryCollection::new();

    // Put value with 10ms TTL at time 1000
    cache.put_at("key1".as_bytes(), &123u32.to_be_bytes(), Some(10), 1000);
    assert_eq!(
        cache.get_at("key1".as_bytes(), 1000),
        Some(123u32.to_be_bytes().to_vec())
    );
    assert_eq!(
        cache.get_at("key1".as_bytes(), 1010),
        Some(123u32.to_be_bytes().to_vec())
    );

    // 20ms later the entry has lapsed
    assert!(cache.get_at("key1".as_bytes(), 1020).is_none());
}

#[test]
fn test_collection_remove() {
    let mut cache = MemoryCollection::new();

    cache.put("key1".as_bytes(), &123u32.to_be_bytes(), None);
    assert_eq!(
        cache.get("key1".as_bytes()),
        Some(123u32.to_be_bytes().to_vec())
    );

    cache.remove("key1".as_bytes());
    assert!(cache.get("key1".as_bytes()).is_none());
}

#[test]
fn test_collection_clear() {
    let mut cache = MemoryCollection::new();

    cache.put("key1".as_bytes(), &123u32.to_be_bytes(), None);
    cache.put("key2".as_bytes(), &456u32.to_be_bytes(), None);

    cache.clear();

    assert!(cache.get("key1".as_bytes()).is_none());
    assert!(cache.get("key2".as_bytes()).is_none());
}

#[test]
fn default_collection_is_empty() {
    let mut cache = MemoryCollection::default();
    assert_eq!(cache.stored_len(), 0);
    assert!(cache.get(b"anything").is_none());
    let store: xmf::store::KeyValueStore<MemoryCollection> = Default::default();
    assert_eq!(store.len(), 0);
}
