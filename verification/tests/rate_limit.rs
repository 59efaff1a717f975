use ironshelf::auth::{hash_password, hash_session_id, require_permission, verify_password, AuthUser};
use sha2::Digest;
use ironshelf::error::AppError;
use ironshelf::rate_limit::{
    client_address, first_forwarded_address, too_many_requests_response, RateLimiter, TokenBucket,
};
use ironshelf::security_headers::security_headers;

#[test]
fn bucket_spends_and_refills_within_capacity() {
    let mut b = TokenBucket::new(3, 0);
    assert!(b.try_consume(0, 1));
    assert!(b.try_consume(0, 2));
    assert!(b.try_consume(0, 3));
    assert!(!b.try_consume(0, 4));
    assert_eq!(b.seconds_until_refill(6), 6);
    assert!(b.try_consume(100, 5));
    assert_eq!(b.remaining_tokens, 2);
    assert_eq!(b.last_refill, 5);
    assert_eq!(b.seconds_until_refill(6), 0);
}

#[test]
fn burst_passes_exactly_capacity() {
    let mut limiter = RateLimiter::new(10);
    let mut allowed = 0;
    for t in 0..25u64 {
        if limiter.check_at("10.0.0.1", 0, t, 6).is_ok() {
            allowed += 1;
        }
    }
    assert_eq!(allowed, 10);
    assert_eq!(limiter.check_at("10.0.0.1", 0, 30, 6), Err(6));
    assert!(limiter.check_at("10.0.0.2", 0, 30, 6).is_ok());
    assert_eq!(limiter.last_refill_of("10.0.0.2"), Some(30));
    assert_eq!(limiter.last_refill_of("10.0.0.3"), None);
    assert!(limiter.check_at("10.0.0.1", 1, 40, 6).is_ok());
    assert_eq!(limiter.check_at("10.0.0.1", 0, 41, 6), Err(6));
}

#[test]
fn new_clients_start_full_whatever_the_refill() {
    let mut limiter = RateLimiter::new(1);
    assert!(limiter.check_at("a", 50, 0, 60).is_ok());
    assert_eq!(limiter.check_at("a", 0, 1, 60), Err(60));
}

#[test]
fn stale_buckets_are_pruned() {
    let fresh = TokenBucket::new(2, 0);
    assert!(fresh.is_stale(1000, 10));
    assert!(!fresh.is_stale(10, 10));
    let mut spent = TokenBucket::new(2, 0);
    assert!(spent.try_consume(0, 0));
    assert!(!spent.is_stale(1000, 10));
    let mut limiter = RateLimiter::new(2);
    assert!(limiter.check_at("a", 0, 0, 30).is_ok());
    limiter.prune_stale(10_000, 100);
    assert_eq!(limiter.last_refill_of("a"), Some(0));
    let mut empty = RateLimiter::new(0);
    assert_eq!(empty.check_at("b", 0, 0, 30), Err(30));
    empty.prune_stale(10_000, 100);
    assert_eq!(empty.last_refill_of("b"), None);
}

#[test]
fn client_addresses() {
    assert_eq!(first_forwarded_address(" 203.0.113.7 , 10.0.0.1"), "203.0.113.7");
    assert_eq!(first_forwarded_address("198.51.100.2"), "198.51.100.2");
    assert_eq!(client_address(true, Some(1), Some(2), 3), 1);
    assert_eq!(client_address(true, None, Some(2), 3), 2);
    assert_eq!(client_address(true, None::<u8>, None, 3), 3);
    assert_eq!(client_address(false, Some(1), Some(2), 3), 3);
    let limiter = RateLimiter::new(5);
    assert!(!limiter.trusts_proxy_headers());
    assert!(limiter.with_trust_proxy_headers(true).trusts_proxy_headers());
    let r = too_many_requests_response(6);
    assert_eq!(r.status, 429);
    assert_eq!(r.code, "rate_limited");
    assert_eq!(r.message, "Too many requests. Please slow down.");
    assert_eq!(r.retry_after, Some(6));
}

#[test]
fn passwords_hash_and_verify() {
    let h = hash_password("correct horse").unwrap();
    assert!(h.starts_with("$argon2id$"));
    assert!(verify_password("correct horse", &h));
    assert!(!verify_password("wrong horse", &h));
    assert!(!verify_password("correct horse", "not a hash"));
    let h2 = hash_password("correct horse").unwrap();
    assert_ne!(h, h2);
}

#[test]
fn session_ids_are_stored_hashed() {
    assert_eq!(hash_session_id("abc"), "ba7816bf8f01cfea414140de5dae2223b00361a396177a9cb410ff61f20015ad");
    assert_eq!(hash_session_id("xyz"), hex::encode(sha2::Sha256::digest(b"xyz")));
}

#[test]
fn permissions() {
    let owner = AuthUser { user_id: "o".to_string(), username: "o".to_string(), is_owner: true, session_id: None };
    let user = AuthUser { user_id: "u".to_string(), username: "u".to_string(), is_owner: false, session_id: None };
    assert!(require_permission(&owner, "download", 0).is_ok());
    assert!(require_permission(&user, "download", 1).is_ok());
    match require_permission(&user, "download", 0) {
        Err(AppError::Forbidden(m)) => assert_eq!(m, "Missing required permission: download"),
        _ => panic!("expected forbidden"),
    }
}

#[test]
fn response_security_headers() {
    let headers = security_headers();
    assert_eq!(headers.len(), 6);
    assert_eq!(headers[0], ("x-content-type-options".to_string(), "nosniff".to_string()));
    assert_eq!(headers[1], ("x-frame-options".to_string(), "DENY".to_string()));
    assert_eq!(headers[2].1, "0");
    assert!(headers[5].1.starts_with("default-src 'self'; script-src 'self'"));
}
