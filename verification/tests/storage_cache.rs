use oxify::cache::{Cache, CacheConfig, CacheMetrics, LruCache, WorkflowRow};

fn row(id: u128, name: &str) -> WorkflowRow {
    WorkflowRow {
        id: uuid::Uuid::from_u128(id).to_string(),
        name: name.to_string(),
        description: None,
        definition: "{}".to_string(),
        version: 1,
        tags: None,
        created_at: "2024-01-01T00:00:00+00:00".to_string(),
        updated_at: "2024-01-01T00:00:00+00:00".to_string(),
    }
}

#[test]
fn test_cache_basic_operations() {
    let config = CacheConfig {
        max_size: 10,
        default_ttl: std::time::Duration::from_secs(60),
        enable_metrics: true,
    };
    let mut cache = Cache::new(config);

    let workflow_id = uuid::Uuid::new_v4().as_u128();
    let workflow = row(workflow_id, "test");

    // Put workflow in cache
    cache.put_workflow(workflow_id, workflow.clone());

    // Get workflow from cache (hit)
    let cached = cache.get_workflow(workflow_id);
    assert!(cached.is_some());
    assert_eq!(cached.unwrap().id, uuid::Uuid::from_u128(workflow_id).to_string());

    // Check metrics
    let metrics = cache.metrics();
    assert_eq!(metrics.workflow_hits, 1);
    assert_eq!(metrics.workflow_misses, 0);

    // Invalidate workflow
    cache.invalidate_workflow(workflow_id);

    // Get workflow after invalidation (miss)
    let cached = cache.get_workflow(workflow_id);
    assert!(cached.is_none());

    let metrics = cache.metrics();
    assert_eq!(metrics.workflow_hits, 1);
    assert_eq!(metrics.workflow_misses, 1);
}

#[test]
fn test_cache_lru_eviction() {
    let config = CacheConfig {
        max_size: 2,
        default_ttl: std::time::Duration::from_secs(60),
        enable_metrics: false,
    };
    let mut cache = Cache::new(config);

    let id1 = uuid::Uuid::new_v4().as_u128();
    let id2 = uuid::Uuid::new_v4().as_u128();
    let id3 = uuid::Uuid::new_v4().as_u128();

    let workflow1 = row(id1, "test1");
    let workflow2 = row(id2, "test2");
    let workflow3 = row(id3, "test3");

    // Fill cache to capacity
    cache.put_workflow(id1, workflow1);
    cache.put_workflow(id2, workflow2);

    // Access workflow1 to make it recently used
    cache.get_workflow(id1);

    // Add workflow3, should evict workflow2 (LRU)
    cache.put_workflow(id3, workflow3);

    // workflow1 should still be in cache
    assert!(cache.get_workflow(id1).is_some());

    // workflow3 should be in cache
    assert!(cache.get_workflow(id3).is_some());
}

#[test]
fn test_cache_stats() {
    let config = CacheConfig {
        max_size: 100,
        default_ttl: std::time::Duration::from_secs(60),
        enable_metrics: true,
    };
    let cache = Cache::new(config);

    let stats = cache.stats();
    assert_eq!(stats.get("workflows").unwrap().size, 0);
    assert_eq!(stats.get("workflows").unwrap().capacity, 100);
}

#[test]
fn cache_lru_evicts_least_recently_used() {
    let mut c: LruCache<u128, Vec<u8>> = LruCache::new(2);
    c.put(1, vec![1], 1_000, 0);
    c.put(2, vec![2], 1_000, 1);
    assert_eq!(c.get(&1, 2), Some(vec![1]));
    c.put(3, vec![3], 1_000, 3);
    assert_eq!(c.size(), 2);
    assert_eq!(c.get(&2, 4), None);
    assert_eq!(c.get(&1, 4), Some(vec![1]));
    assert_eq!(c.get(&3, 4), Some(vec![3]));
}

#[test]
fn cache_entries_expire() {
    let mut c: LruCache<u128, Vec<u8>> = LruCache::new(4);
    c.put(1, vec![1], 10, 100);
    assert_eq!(c.get(&1, 110), Some(vec![1]));
    assert_eq!(c.get(&1, 111), None);
    c.put(2, vec![2], 10, 100);
    c.put(3, vec![3], 50, 100);
    let st = c.stats(120);
    assert_eq!(st.size, 2);
    assert_eq!(st.valid_entries, 1);
    assert_eq!(st.expired_entries, 1);
    c.evict_expired(120);
    assert_eq!(c.size(), 1);
    assert_eq!(c.get(&3, 120), Some(vec![3]));
}

#[test]
fn cache_put_replaces_and_invalidate_removes() {
    let mut c: LruCache<String, Vec<u8>> = LruCache::new(4);
    c.put("k".to_string(), vec![1], 100, 0);
    c.put("k".to_string(), vec![2], 100, 1);
    assert_eq!(c.size(), 1);
    assert_eq!(c.get(&"k".to_string(), 2), Some(vec![2]));
    c.invalidate(&"k".to_string());
    assert_eq!(c.get(&"k".to_string(), 3), None);
    c.put("a".to_string(), vec![1], 100, 0);
    c.clear();
    assert_eq!(c.size(), 0);
}

#[test]
fn cache_api_keys_and_metrics() {
    let mut cache = Cache::new(CacheConfig::default());
    assert!(cache.get_api_key("h").is_none());
    cache.put_api_key("h".to_string(), vec![9, 9]);
    assert_eq!(cache.get_api_key("h"), Some(vec![9, 9]));
    cache.invalidate_api_key("h");
    let m = cache.metrics();
    assert_eq!(m.api_key_hits, 1);
    assert_eq!(m.api_key_misses, 1);
    assert_eq!(m.invalidations, 1);
    cache.reset_metrics();
    assert_eq!(cache.metrics().api_key_hits, 0);
    let stats = cache.stats();
    assert_eq!(stats.get("api_keys").unwrap().size, 0);
    assert!(stats.get("nothing").is_none());
}

#[test]
fn cache_metrics_default_is_zero() {
    let m = CacheMetrics::default();
    assert_eq!(m.workflow_hits, 0);
    assert_eq!(m.evictions, 0);
}
