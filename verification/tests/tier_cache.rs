use subgraph_tier::Config;
use subgraph_tier::TierCache;
use subgraph_tier::cache_key;

fn record(partner: &str, uri: &str, service: &str) -> Config {
    Config {
        partner_id: partner.to_string(),
        service_uri: uri.to_string(),
        service_name: service.to_string(),
    }
}

#[test]
fn cache_put_then_get_hits() {
    let mut cache = TierCache::with_size(4);
    let key = cache_key(&"42".to_string(), &"billing".to_string());
    assert_eq!(key, "42-#-billing");
    cache.put(key.clone(), record("42", "http://svc-a.internal", "billing"));
    let hit = cache.get(&key).expect("freshly stored key must hit");
    assert_eq!(hit.partner_id, "42");
    assert_eq!(hit.service_uri, "http://svc-a.internal");
    assert_eq!(hit.service_name, "billing");
    assert_eq!(cache.len(), 1);
}

#[test]
fn capacity_two_evicts_oldest() {
    // capacity = 2; insert A, B, then C: A is evicted, B and C hit.
    let mut cache = TierCache::with_size(2);
    let a = "a-#-x".to_string();
    let b = "b-#-x".to_string();
    let c = "c-#-x".to_string();
    cache.put(a.clone(), record("a", "http://a.internal", "x"));
    cache.put(b.clone(), record("b", "http://b.internal", "x"));
    cache.put(c.clone(), record("c", "http://c.internal", "x"));
    assert_eq!(cache.len(), 2);
    assert!(cache.get(&a).is_none());
    assert!(cache.get(&b).is_some());
    assert!(cache.get(&c).is_some());
}

#[test]
fn get_refreshes_recency() {
    // A get moves the entry to most-recently-used: after touching A, a new
    // key evicts B instead.
    let mut cache = TierCache::with_size(2);
    let a = "a-#-x".to_string();
    let b = "b-#-x".to_string();
    let c = "c-#-x".to_string();
    cache.put(a.clone(), record("a", "http://a.internal", "x"));
    cache.put(b.clone(), record("b", "http://b.internal", "x"));
    assert!(cache.get(&a).is_some());
    cache.put(c.clone(), record("c", "http://c.internal", "x"));
    assert!(cache.get(&a).is_some());
    assert!(cache.get(&b).is_none());
    assert!(cache.get(&c).is_some());
}

#[test]
fn put_existing_key_replaces_in_place() {
    // Storing under a present key replaces the value but keeps its recency
    // position, so it is still the one evicted next.
    let mut cache = TierCache::with_size(2);
    let a = "a-#-x".to_string();
    let b = "b-#-x".to_string();
    let c = "c-#-x".to_string();
    cache.put(a.clone(), record("a", "http://a1.internal", "x"));
    cache.put(b.clone(), record("b", "http://b.internal", "x"));
    cache.put(a.clone(), record("a", "http://a2.internal", "x"));
    cache.put(c.clone(), record("c", "http://c.internal", "x"));
    assert!(cache.get(&a).is_none());
    assert!(cache.get(&b).is_some());
    assert!(cache.get(&c).is_some());
}

#[test]
fn capacity_one_holds_exactly_the_newest_key() {
    let mut cache = TierCache::with_size(1);
    let a = "a-#-x".to_string();
    let b = "b-#-x".to_string();
    cache.put(a.clone(), record("a", "http://a.internal", "x"));
    assert!(cache.get(&a).is_some());
    cache.put(b.clone(), record("b", "http://b.internal", "x"));
    assert_eq!(cache.len(), 1);
    assert!(cache.get(&a).is_none());
    assert!(cache.get(&b).is_some());
}

#[test]
fn clear_then_get_misses() {
    let mut cache = TierCache::with_size(4);
    let a = "a-#-x".to_string();
    let b = "b-#-x".to_string();
    cache.put(a.clone(), record("a", "http://a.internal", "x"));
    cache.put(b.clone(), record("b", "http://b.internal", "x"));
    assert_eq!(cache.len(), 2);
    cache.clear();
    assert_eq!(cache.len(), 0);
    assert!(cache.get(&a).is_none());
    assert!(cache.get(&b).is_none());
}

#[test]
fn cache_key_separates_components() {
    let key = cache_key(&"7".to_string(), &"billing".to_string());
    assert_eq!(key, "7-#-billing");
    let other = cache_key(&"71".to_string(), &"illing".to_string());
    assert_ne!(key, other);
}
