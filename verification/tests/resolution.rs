use subgraph_tier::Config;
use subgraph_tier::ConfigResolver;
use subgraph_tier::ConfigStore;
use subgraph_tier::Lookup;
use subgraph_tier::LookupOutcome;
use subgraph_tier::Outcome;
use subgraph_tier::TierCache;
use subgraph_tier::get_config_from_db;

/// A lookup collaborator that always answers the same outcome and counts how
/// often it was consulted.
struct FixedLookup {
    outcome: fn() -> LookupOutcome,
    calls: usize,
}

impl Lookup for FixedLookup {
    fn lookup(&mut self, _partner_id: &String, _service_name: &String) -> LookupOutcome {
        self.calls += 1;
        (self.outcome)()
    }
}

fn record(partner: &str, uri: &str, service: &str) -> Config {
    Config {
        partner_id: partner.to_string(),
        service_uri: uri.to_string(),
        service_name: service.to_string(),
    }
}

#[test]
fn found_resolution_is_cached_and_reused() {
    // A prior Found resolution answers the next call from the cache alone:
    // the identical record, zero further collaborator calls.
    let mut cache = TierCache::with_size(8);
    let mut resolver = ConfigResolver::new();
    let mut source = FixedLookup {
        outcome: || LookupOutcome::Found("http://svc-a.internal".to_string()),
        calls: 0,
    };
    let partner = "42".to_string();
    let service = "billing".to_string();

    let first = resolver.resolve(&mut cache, &mut source, &partner, &service);
    let first = match first {
        Outcome::Found(c) => c,
        _ => panic!("lookup answered Found, so resolve must return Found"),
    };
    assert_eq!(source.calls, 1);
    assert_eq!(resolver.lookup_count(), 1);
    assert_eq!(first.partner_id, "42");
    assert_eq!(first.service_name, "billing");
    assert_eq!(first.service_uri, "http://svc-a.internal");

    let second = resolver.resolve(&mut cache, &mut source, &partner, &service);
    let second = match second {
        Outcome::Found(c) => c,
        _ => panic!("a cached key must resolve to Found"),
    };
    assert_eq!(source.calls, 1, "a cache hit must not consult the collaborator");
    assert_eq!(resolver.lookup_count(), 1);
    assert_eq!(second.partner_id, first.partner_id);
    assert_eq!(second.service_uri, first.service_uri);
    assert_eq!(second.service_name, first.service_name);
}

#[test]
fn distinct_partners_are_distinct_cache_entries() {
    let mut cache = TierCache::with_size(8);
    let mut resolver = ConfigResolver::new();
    let mut source = FixedLookup {
        outcome: || LookupOutcome::Found("http://svc-a.internal".to_string()),
        calls: 0,
    };
    let service = "billing".to_string();

    resolver.resolve(&mut cache, &mut source, &"42".to_string(), &service);
    resolver.resolve(&mut cache, &mut source, &"7".to_string(), &service);
    assert_eq!(source.calls, 2, "each partner misses once");
    assert_eq!(cache.len(), 2);

    resolver.resolve(&mut cache, &mut source, &"42".to_string(), &service);
    resolver.resolve(&mut cache, &mut source, &"7".to_string(), &service);
    assert_eq!(source.calls, 2, "both partners now hit the cache");
}

#[test]
fn not_found_is_never_cached() {
    let mut cache = TierCache::with_size(8);
    let mut resolver = ConfigResolver::new();
    let mut source = FixedLookup { outcome: || LookupOutcome::NotFound, calls: 0 };
    let partner = "42".to_string();
    let service = "billing".to_string();

    assert!(matches!(
        resolver.resolve(&mut cache, &mut source, &partner, &service),
        Outcome::NotFound
    ));
    assert!(matches!(
        resolver.resolve(&mut cache, &mut source, &partner, &service),
        Outcome::NotFound
    ));
    assert_eq!(source.calls, 2, "a NotFound outcome must re-trigger the lookup");
    assert_eq!(cache.len(), 0);
}

#[test]
fn error_is_never_cached() {
    let mut cache = TierCache::with_size(8);
    let mut resolver = ConfigResolver::new();
    let mut source = FixedLookup {
        outcome: || LookupOutcome::Error("timeout".to_string()),
        calls: 0,
    };
    let partner = "7".to_string();
    let service = "billing".to_string();

    match resolver.resolve(&mut cache, &mut source, &partner, &service) {
        Outcome::Error(message) => assert_eq!(message, "timeout"),
        _ => panic!("an erring lookup must resolve to Error"),
    }
    match resolver.resolve(&mut cache, &mut source, &partner, &service) {
        Outcome::Error(message) => assert_eq!(message, "timeout"),
        _ => panic!("an erring lookup must resolve to Error"),
    }
    assert_eq!(source.calls, 2, "an Error outcome must re-trigger the lookup");
    assert_eq!(cache.len(), 0);
}

#[test]
fn split_resolution_probes_then_finishes() {
    // The two-step path a host uses when the cache sits behind a lock: probe,
    // release, look up, then finish.
    let mut cache = TierCache::with_size(4);
    let mut resolver = ConfigResolver::new();
    let partner = "42".to_string();
    let service = "billing".to_string();

    assert!(ConfigResolver::check_cache(&mut cache, &partner, &service).is_none());
    let out = resolver.finish_lookup(
        &mut cache,
        &partner,
        &service,
        LookupOutcome::Found("http://svc-a.internal".to_string()),
    );
    match out {
        Outcome::Found(c) => assert_eq!(c.service_uri, "http://svc-a.internal"),
        _ => panic!("a found lookup must finish as Found"),
    }
    assert_eq!(resolver.lookup_count(), 1);

    let hit = ConfigResolver::check_cache(&mut cache, &partner, &service)
        .expect("the finished resolution must be cached");
    assert_eq!(hit.service_uri, "http://svc-a.internal");

    let out = resolver.finish_lookup(&mut cache, &"7".to_string(), &service, LookupOutcome::NotFound);
    assert!(matches!(out, Outcome::NotFound));
    assert!(ConfigResolver::check_cache(&mut cache, &"7".to_string(), &service).is_none());
    assert_eq!(cache.len(), 1);
}

#[test]
fn point_query_on_empty_store_misses() {
    let store = ConfigStore::new();
    assert!(get_config_from_db(&store, &"42".to_string(), &"billing".to_string()).is_none());
}

#[test]
fn point_query_returns_first_match() {
    let mut store = ConfigStore::new();
    store.add(record("42", "http://first.internal", "billing"));
    store.add(record("42", "http://second.internal", "billing"));
    store.add(record("7", "http://other.internal", "billing"));

    let hit = get_config_from_db(&store, &"42".to_string(), &"billing".to_string())
        .expect("a stored pair must be found");
    assert_eq!(hit.service_uri, "http://first.internal");

    let other = get_config_from_db(&store, &"7".to_string(), &"billing".to_string())
        .expect("a stored pair must be found");
    assert_eq!(other.service_uri, "http://other.internal");

    assert!(get_config_from_db(&store, &"42".to_string(), &"orders".to_string()).is_none());
    assert!(get_config_from_db(&store, &"billing".to_string(), &"42".to_string()).is_none());
}

#[test]
fn store_backed_resolution() {
    let mut store = ConfigStore::new();
    store.add(record("42", "http://svc-a.internal", "billing"));
    let mut cache = TierCache::with_size(8);
    let mut resolver = ConfigResolver::new();

    let found = resolver
        .get_cached_config(&mut cache, &mut store, &"42".to_string(), &"billing".to_string())
        .expect("the stored pair must resolve");
    assert_eq!(found.service_uri, "http://svc-a.internal");
    assert_eq!(resolver.lookup_count(), 1);

    // A pair the store does not hold resolves to nothing, and stays uncached.
    assert!(resolver
        .get_cached_config(&mut cache, &mut store, &"9".to_string(), &"billing".to_string())
        .is_none());
    assert!(resolver
        .get_cached_config(&mut cache, &mut store, &"9".to_string(), &"billing".to_string())
        .is_none());
    assert_eq!(resolver.lookup_count(), 3);
}
