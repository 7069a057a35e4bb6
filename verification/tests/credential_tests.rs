use cctv_ingest::credential::auth_header_value;
use cctv_ingest::credential::CredentialCache;
use cctv_ingest::credential::TokenDecision;

#[test]
fn empty_cache_needs_refresh() {
    let cache = CredentialCache::new();
    assert!(matches!(cache.decide(0), TokenDecision::NeedsRefresh));
    assert!(matches!(cache.decide(1_000_000), TokenDecision::NeedsRefresh));
}

#[test]
fn second_call_within_window_returns_identical_token() {
    let mut cache = CredentialCache::new();
    let t0: u64 = 1_000;
    let installed = cache.install("SECRET-REDACTED".to_string(), t0);
    assert_eq!(installed, "SECRET-REDACTED");
    let first = match cache.decide(t0 + 10) {
        TokenDecision::UseCached(t) => t,
        TokenDecision::NeedsRefresh => panic!("expected a cached token"),
    };
    let second = match cache.decide(t0 + 20) {
        TokenDecision::UseCached(t) => t,
        TokenDecision::NeedsRefresh => panic!("expected a cached token"),
    };
    assert_eq!(first, second);
    assert_eq!(first, installed);
}

#[test]
fn token_expires_after_lifetime_minus_margin() {
    let mut cache = CredentialCache::new();
    let t0: u64 = 1_000;
    cache.install("tok".to_string(), t0);
    // 2 hours minus the 5 minute margin
    let expiry = t0 + 7200 - 300;
    assert!(matches!(cache.decide(expiry - 1), TokenDecision::UseCached(_)));
    assert!(matches!(cache.decide(expiry), TokenDecision::NeedsRefresh));
    assert!(matches!(cache.decide(expiry + 1), TokenDecision::NeedsRefresh));
}

#[test]
fn reinstall_replaces_the_slot_wholesale() {
    let mut cache = CredentialCache::new();
    cache.install("old".to_string(), 0);
    cache.install("new".to_string(), 10_000);
    match cache.decide(10_001) {
        TokenDecision::UseCached(t) => assert_eq!(t, "new"),
        TokenDecision::NeedsRefresh => panic!("expected a cached token"),
    }
}

#[test]
fn bearer_header_is_exact() {
    assert_eq!(auth_header_value("abc123"), "Bearer abc123");
    assert_eq!(auth_header_value(""), "Bearer ");
}
