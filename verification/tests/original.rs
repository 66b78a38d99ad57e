use coo_service::add;
use coo_service::resource::key::{normalize_sha256, object_key};
use coo_service::resource::secret::{decrypt_secret, encrypt_secret};
use coo_service::router::cache::PublicCache;
use coo_service::router::ratelimit::RateLimiter;

#[test]
fn it_works() {
    let result = add(2, 2);
    assert_eq!(result, 4);
}

#[test]
fn splits_into_two_levels() {
    let key = object_key("ab".repeat(32).as_str()).ok().unwrap();
    assert_eq!(key, "ab/".to_string() + &"ab".repeat(31));
}

#[test]
fn rejects_bad_input() {
    assert!(object_key("abc").is_err());
    assert!(object_key("g0".repeat(32).as_str()).is_err());
    assert!(object_key("AB".repeat(32).as_str()).is_ok());
}

#[test]
fn normalizes_case_and_whitespace() {
    let raw = format!("  {}  ", "AbC".repeat(21) + "A");
    assert_eq!(normalize_sha256(&raw).ok().unwrap(), "abc".repeat(21) + "a");
    assert!(normalize_sha256("XYZ").is_err());
}

/// Without a master key the store is plaintext, as in earlier versions.
#[test]
fn roundtrip_plaintext_mode() {
    let secret = "s3secret-key";
    let enc = encrypt_secret(None, secret).unwrap();
    assert_eq!(decrypt_secret(None, &enc), secret);
}

#[test]
fn legacy_plaintext_passes_through() {
    assert_eq!(decrypt_secret(None, "legacy-plain"), "legacy-plain");
}

#[test]
fn ttl_expiry() {
    let mut cache = PublicCache::new(10_000);
    cache.insert("k".to_string(), "null".to_string(), 1_000);
    assert!(cache.get("k", 1_000).is_some());
    assert!(cache.get("k", 1_000 + 11_000).is_none());
}

#[test]
fn window_resets_and_counts() {
    let mut limiter = RateLimiter::new(2);
    let ip = "127.0.0.1";
    assert!(limiter.check(ip, 5_000));
    assert!(limiter.check(ip, 5_000));
    assert!(!limiter.check(ip, 5_000));
    assert!(limiter.check(ip, 5_000 + 61_000));
}
