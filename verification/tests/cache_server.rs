use std::collections::HashMap;

use generic_cache_server::cache::{Cache, CacheEntry};
use generic_cache_server::init::{select_keys, starts_with};
use generic_cache_server::methods::{
    cache_response, clear, compute_expiry, decode_body, handle_request, parse_method,
    record_response, route_request, token_valid, ApiError, Clear, Decision, Method, Request,
};

fn now_ms() -> i64 {
    chrono::Utc::now().timestamp_millis()
}

fn entry(key: &str, data: &str, created_at: i64, expires_at: i64) -> CacheEntry {
    CacheEntry::new_at(
        key.to_string(),
        data.to_string(),
        created_at,
        expires_at,
        "tok".to_string(),
    )
}

fn request(token: &str, key: &str, method: &str, ttl: u64) -> Request {
    Request {
        token: token.to_string(),
        url: "http://upstream.test/value".to_string(),
        key: key.to_string(),
        headers: HashMap::new(),
        method: method.to_string(),
        body: None,
        ttl,
    }
}

fn snapshot_data(cache: &Cache, key: &str) -> Option<String> {
    cache
        .all()
        .into_iter()
        .find(|e| e.key().as_str() == key)
        .map(|e| e.data().clone())
}

#[test]
fn round_trip_insert_then_lookup() {
    let mut cache = Cache::new();
    let now = now_ms();
    cache.insert(entry("a", "{\"x\":1}", now, now + 60_000));
    let got = cache.get(&"a".to_string(), now).expect("fresh entry must be served");
    assert_eq!(got.data().as_str(), "{\"x\":1}");
    let v = got.as_json().expect("payload must parse back");
    assert_eq!(v.get("x").unwrap().as_i64().unwrap(), 1);
}

#[test]
fn insert_overwrites_previous_entry() {
    let mut cache = Cache::new();
    let now = now_ms();
    cache.insert(entry("a", "{\"v\":1}", now, now + 60_000));
    cache.insert(entry("a", "{\"v\":2}", now, now + 60_000));
    let got = cache.get(&"a".to_string(), now).expect("entry must be served");
    assert_eq!(got.data().as_str(), "{\"v\":2}");
    let snap = cache.all();
    assert_eq!(snap.len(), 1);
    assert_eq!(snap[0].data().as_str(), "{\"v\":2}");
}

#[test]
fn remove_absent_key_is_noop() {
    let mut cache = Cache::new();
    let now = now_ms();
    cache.insert(entry("a", "{}", now, now + 60_000));
    cache.clear(&"missing".to_string());
    let snap = cache.all();
    assert_eq!(snap.len(), 1);
    assert_eq!(snap[0].key().as_str(), "a");
}

#[test]
fn clear_absent_key_reports_success() {
    let mut cache = Cache::new();
    let tokens = vec!["secret".to_string()];
    let payload = Clear { token: "secret".to_string(), key: "missing".to_string() };
    let r = clear(&mut cache, &tokens, &payload);
    assert!(r.is_ok());
}

#[test]
fn clear_rejects_bad_token_without_mutation() {
    let mut cache = Cache::new();
    let now = now_ms();
    cache.insert(entry("a", "{\"v\":1}", now, now + 60_000));
    let tokens = vec!["secret".to_string()];
    let payload = Clear { token: "wrong".to_string(), key: "a".to_string() };
    let r = clear(&mut cache, &tokens, &payload);
    assert_eq!(r, Err(ApiError::Unauthorized));
    assert_eq!(snapshot_data(&cache, "a").as_deref(), Some("{\"v\":1}"));
}

#[test]
fn fetch_or_serve_rejects_bad_token_without_mutation() {
    let mut cache = Cache::new();
    let now = now_ms();
    cache.insert(entry("a", "{\"v\":1}", now - 120_000, now - 60_000));
    let tokens = vec!["secret".to_string()];
    let req = request("wrong", "a", "get", 60);
    let d = route_request(&mut cache, &tokens, &req, now);
    assert!(matches!(d, Decision::Unauthorized));
    // Even the expired entry is still listed: no sweep ran.
    assert_eq!(snapshot_data(&cache, "a").as_deref(), Some("{\"v\":1}"));
}

#[test]
fn expired_entry_is_absent_and_swept() {
    let mut cache = Cache::new();
    // A time-to-live of minus one second: expired on arrival.
    let expires = now_ms() - 1000;
    cache.insert(CacheEntry::new(
        "k".to_string(),
        "{}".to_string(),
        expires,
        "tok".to_string(),
    ));
    assert!(cache.lookup(&"k".to_string()).is_none());
    let snap = cache.all();
    assert!(snap.iter().all(|e| e.key().as_str() != "k"));
}

#[test]
fn entry_at_exact_expiration_instant_still_served() {
    let mut cache = Cache::new();
    cache.insert(entry("k", "{}", 0, 1000));
    assert!(cache.get(&"k".to_string(), 1000).is_some());
    assert!(cache.get(&"k".to_string(), 1001).is_none());
}

#[test]
fn second_fetch_or_serve_is_served_from_cache() {
    let mut cache = Cache::new();
    let tokens = vec!["secret".to_string()];
    let req = request("secret", "k", "get", 60);
    let now = now_ms();
    let d1 = route_request(&mut cache, &tokens, &req, now);
    assert!(matches!(d1, Decision::Fetch { method: Method::Get }));
    // The endpoint answers the first call:
    record_response(&mut cache, &req, &"{\"v\":1}".to_string(), now);
    // The endpoint would answer a second call with a new value, but the
    // second request arrives before the entry's time-to-live has passed:
    let d2 = route_request(&mut cache, &tokens, &req, now + 1000);
    match d2 {
        Decision::Hit { data } => assert_eq!(data.as_str(), "{\"v\":1}"),
        other => panic!("expected a cache hit, got {:?}", decision_name(&other)),
    }
}

#[test]
fn clear_then_fetch_or_serve_fetches_fresh_value() {
    let mut cache = Cache::new();
    let tokens = vec!["secret".to_string()];
    let req = request("secret", "k", "get", 60);
    let now = now_ms();
    record_response(&mut cache, &req, &"{\"v\":1}".to_string(), now);
    let payload = Clear { token: "secret".to_string(), key: "k".to_string() };
    assert!(clear(&mut cache, &tokens, &payload).is_ok());
    // The key is gone, so the next request misses and fetches again:
    let d = route_request(&mut cache, &tokens, &req, now + 1000);
    assert!(matches!(d, Decision::Fetch { method: Method::Get }));
    // The endpoint's value changed since the original write:
    record_response(&mut cache, &req, &"{\"v\":2}".to_string(), now + 1000);
    let d2 = route_request(&mut cache, &tokens, &req, now + 2000);
    match d2 {
        Decision::Hit { data } => assert_eq!(data.as_str(), "{\"v\":2}"),
        other => panic!("expected a cache hit, got {:?}", decision_name(&other)),
    }
}

fn decision_name(d: &Decision) -> &'static str {
    match d {
        Decision::Unauthorized => "Unauthorized",
        Decision::Hit { .. } => "Hit",
        Decision::BadRequest => "BadRequest",
        Decision::Fetch { .. } => "Fetch",
    }
}

#[test]
fn unsupported_method_is_rejected_on_miss_only() {
    let mut cache = Cache::new();
    let tokens = vec!["secret".to_string()];
    let bad = request("secret", "k", "delete", 60);
    let now = now_ms();
    let d = route_request(&mut cache, &tokens, &bad, now);
    assert!(matches!(d, Decision::BadRequest));
    // A hit is served before the method is looked at:
    record_response(&mut cache, &request("secret", "k", "get", 60), &"{}".to_string(), now);
    let d2 = route_request(&mut cache, &tokens, &bad, now);
    assert!(matches!(d2, Decision::Hit { .. }));
}

#[test]
fn parse_method_accepts_exactly_get_and_post() {
    assert_eq!(parse_method(&"get".to_string()), Some(Method::Get));
    assert_eq!(parse_method(&"post".to_string()), Some(Method::Post));
    assert_eq!(parse_method(&"GET".to_string()), None);
    assert_eq!(parse_method(&"delete".to_string()), None);
    assert_eq!(parse_method(&"".to_string()), None);
}

#[test]
fn token_valid_checks_membership() {
    let tokens = vec!["a".to_string(), "b".to_string()];
    assert!(token_valid(&tokens, &"a".to_string()));
    assert!(token_valid(&tokens, &"b".to_string()));
    assert!(!token_valid(&tokens, &"c".to_string()));
    assert!(!token_valid(&Vec::new(), &"a".to_string()));
}

#[test]
fn compute_expiry_adds_seconds_as_milliseconds() {
    assert_eq!(compute_expiry(1000, 60), 61_000);
    assert_eq!(compute_expiry(-5000, 2), -3000);
    assert_eq!(compute_expiry(i64::MAX, 1), i64::MAX);
    assert_eq!(compute_expiry(0, u64::MAX), i64::MAX);
}

#[test]
fn record_response_sets_expiry_and_creator() {
    let mut cache = Cache::new();
    let req = request("secret", "k", "get", 60);
    record_response(&mut cache, &req, &"{}".to_string(), 10_000);
    let got = cache.get(&"k".to_string(), 10_000).expect("entry must be present");
    assert_eq!(got.created_at(), 10_000);
    assert_eq!(got.expires_at(), 70_000);
    assert_eq!(got.created_by().as_str(), "secret");
    assert_eq!(got.ttl(), 60_000);
    assert_eq!(got.age_at(15_000), 5000);
}

#[test]
fn decode_body_accepts_exactly_json() {
    assert!(decode_body(&"{\"a\":[1,2]}".to_string()).is_ok());
    assert!(decode_body(&"[1,2,3]".to_string()).is_ok());
    assert_eq!(
        decode_body(&"not json".to_string()),
        Err(ApiError::DecodeFailure)
    );
    assert_eq!(decode_body(&"{".to_string()), Err(ApiError::DecodeFailure));
}

#[test]
fn as_json_reports_malformed_payload() {
    let e = entry("k", "{\"ok\":true", 0, 1000);
    assert_eq!(e.as_json().unwrap_err(), ApiError::DecodeFailure);
    let e2 = entry("k", "{\"ok\":true}", 0, 1000);
    assert!(e2.as_json().unwrap().get("ok").unwrap().as_bool().unwrap());
}

#[test]
fn starts_with_compares_characters() {
    assert!(starts_with("GCS_KEY_ONE", "GCS_KEY_"));
    assert!(starts_with("abc", ""));
    assert!(!starts_with("GCS_KEX_ONE", "GCS_KEY_"));
    assert!(!starts_with("GCS", "GCS_KEY_"));
}

#[test]
fn select_keys_takes_prefixed_values_in_order() {
    let pairs = vec![
        ("PATH".to_string(), "/bin".to_string()),
        ("GCS_KEY_A".to_string(), "alpha".to_string()),
        ("TERM".to_string(), "dumb".to_string()),
        ("GCS_KEY_B".to_string(), "beta".to_string()),
    ];
    assert_eq!(select_keys(&pairs), vec!["alpha".to_string(), "beta".to_string()]);
}

#[test]
fn select_keys_falls_back_to_test_token() {
    let pairs = vec![("PATH".to_string(), "/bin".to_string())];
    assert_eq!(select_keys(&pairs), vec!["test".to_string()]);
    assert_eq!(select_keys(&Vec::new()), vec!["test".to_string()]);
}

#[test]
fn remove_expired_sweeps_only_expired_entries() {
    let mut cache = Cache::new();
    cache.insert(entry("old", "{}", 0, 1000));
    cache.insert(entry("live", "{}", 0, 10_000));
    cache.remove_expired(5000);
    let snap = cache.all();
    assert_eq!(snap.len(), 1);
    assert_eq!(snap[0].key().as_str(), "live");
}

#[test]
fn default_cache_is_empty() {
    let cache = Cache::default();
    assert!(cache.all().is_empty());
}

#[test]
fn clock_driven_mediation_misses_then_hits() {
    let mut cache = Cache::new();
    let tokens = vec!["secret".to_string()];
    let req = request("secret", "k", "get", 60);
    let d1 = handle_request(&mut cache, &tokens, &req);
    assert!(matches!(d1, Decision::Fetch { method: Method::Get }));
    cache_response(&mut cache, &req, &"{\"v\":7}".to_string());
    let d2 = handle_request(&mut cache, &tokens, &req);
    match d2 {
        Decision::Hit { data } => assert_eq!(data.as_str(), "{\"v\":7}"),
        other => panic!("expected a cache hit, got {:?}", decision_name(&other)),
    }
    let got = cache.lookup(&"k".to_string()).expect("entry must be present");
    assert_eq!(got.created_by().as_str(), "secret");
    assert_eq!(got.expires_at() - got.created_at(), 60_000);
}
