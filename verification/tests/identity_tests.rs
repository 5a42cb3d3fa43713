use rustop::identity::{uid_fallback_name, UserCache};

#[test]
fn synthetic_name_form() {
    assert_eq!(uid_fallback_name(0), "uid:0");
    assert_eq!(uid_fallback_name(4242), "uid:4242");
}

#[test]
fn miss_with_found_name_caches_it() {
    let mut uc = UserCache::new();
    assert!(uc.cached(42).is_none());
    let name = uc.admit_lookup(42, Some("alice".to_string()));
    assert_eq!(name, "alice");
    assert_eq!(uc.cached(42), Some("alice".to_string()));
}

#[test]
fn miss_without_name_caches_synthetic() {
    let mut uc = UserCache::new();
    let name = uc.admit_lookup(42, None);
    assert_eq!(name, "uid:42");
    // the synthetic result sticks until the next wholesale rebuild
    assert_eq!(uc.cached(42), Some("uid:42".to_string()));
}

#[test]
fn empty_queried_name_falls_back_to_synthetic() {
    let mut uc = UserCache::new();
    let name = uc.admit_lookup(7, Some(String::new()));
    assert_eq!(name, "uid:7");
}

#[test]
fn hit_wins_over_new_lookup_outcome() {
    let mut uc = UserCache::new();
    uc.admit_lookup(42, Some("alice".to_string()));
    let name = uc.admit_lookup(42, Some("other".to_string()));
    assert_eq!(name, "alice");
}

#[test]
fn rebuild_after_exactly_one_hundred_scans() {
    let mut uc = UserCache::new();
    // a uid that was added to the system user database mid-run keeps
    // resolving to its stale cached name until the rebuild
    assert_eq!(uc.admit_lookup(42, None), "uid:42");
    for _ in 0..99 {
        uc.end_scan();
        assert_eq!(uc.cached(42), Some("uid:42".to_string()));
    }
    // the hundredth completed scan clears the cache
    uc.end_scan();
    assert!(uc.cached(42).is_none());
    // the scan immediately following the hundredth sees the proper name
    assert_eq!(uc.admit_lookup(42, Some("alice".to_string())), "alice");
    assert_eq!(uc.cached(42), Some("alice".to_string()));
}

#[test]
fn custom_interval() {
    let mut uc = UserCache::with_interval(2);
    uc.admit_lookup(1, Some("a".to_string()));
    uc.end_scan();
    assert_eq!(uc.cached(1), Some("a".to_string()));
    uc.end_scan();
    assert!(uc.cached(1).is_none());
}

#[test]
fn resolve_never_returns_empty() {
    let mut uc = UserCache::new();
    // whatever the system user database holds for these ids, the caller
    // always gets a usable, non-empty display name
    let root = uc.resolve(0);
    assert!(!root.is_empty());
    let nobody_much = uc.resolve(4_000_000_000);
    assert!(!nobody_much.is_empty());
    // a hit returns the same name again without another query
    assert_eq!(uc.resolve(0), root);
}

#[test]
fn resolve_of_missing_uid_is_synthetic() {
    let mut uc = UserCache::new();
    // this uid is far outside anything a test system allocates
    let name = uc.resolve(4_000_000_123);
    assert_eq!(name, "uid:4000000123");
}
