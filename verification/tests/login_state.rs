use ironshelf::login_state::{LoginAttemptStore, PendingTotp, PendingTotpStore, MAX_FAILED_ATTEMPTS, MAX_TOTP_ATTEMPTS};

// --- LoginAttemptStore tests ---

#[test]
fn test_lockout_not_locked_initially() {
    let store = LoginAttemptStore::new();
    let (locked, retry_after) = store.check_locked("alice");
    assert!(!locked);
    assert_eq!(retry_after, 0);
}

#[test]
fn test_lockout_triggers_at_max_attempts() {
    let mut store = LoginAttemptStore::new();
    let username = "bob";

    // Record MAX_FAILED_ATTEMPTS - 1 failures; not yet locked.
    for _ in 0..(MAX_FAILED_ATTEMPTS - 1) {
        let (locked, _) = store.record_failure(username);
        assert!(!locked, "should not be locked before max attempts");
    }

    // The final failure locks the account.
    let (locked, retry_after) = store.record_failure(username);
    assert!(locked, "should be locked at max attempts");
    assert!(retry_after > 0);

    // check_locked also confirms lockout.
    let (locked2, _) = store.check_locked(username);
    assert!(locked2);
}

#[test]
fn test_lockout_cleared_on_success() {
    let mut store = LoginAttemptStore::new();
    let username = "carol";

    // Trigger lockout.
    for _ in 0..MAX_FAILED_ATTEMPTS {
        store.record_failure(username);
    }
    let (locked, _) = store.check_locked(username);
    assert!(locked);

    // Successful login clears it.
    store.record_success(username);
    let (locked2, _) = store.check_locked(username);
    assert!(!locked2);
}

// --- PendingTotpStore tests ---

#[test]
fn test_pending_totp_insert_and_take() {
    let mut store = PendingTotpStore::new();
    let token = "tok-abc".to_string();
    let pending = PendingTotp::new("uid-1".to_string(), "dave".to_string(), false);

    store.insert(token.clone(), pending);

    let result = store.take(&token);
    assert!(result.is_some());
    let p = result.unwrap();
    assert_eq!(p.user_id, "uid-1");
    assert_eq!(p.username, "dave");
    assert!(!p.is_owner);

    // Second take returns None (consumed).
    assert!(store.take(&token).is_none());
}

#[test]
fn test_pending_totp_missing_token_returns_none() {
    let mut store = PendingTotpStore::new();
    assert!(store.take("nonexistent").is_none());
}

#[test]
fn test_pending_totp_increment_blocks_at_max() {
    let mut store = PendingTotpStore::new();
    let token = "tok-xyz".to_string();
    store.insert(token.clone(), PendingTotp::new("uid-2".to_string(), "eve".to_string(), false));

    // Increment up to MAX_TOTP_ATTEMPTS - 1; each returns Some.
    for i in 1..MAX_TOTP_ATTEMPTS {
        let result = store.increment_attempt(&token);
        assert_eq!(result, Some(i), "attempt {i} should succeed");
    }

    // The MAX_TOTP_ATTEMPTS-th increment removes the entry and returns None.
    let result = store.increment_attempt(&token);
    assert!(result.is_none(), "should be None at max attempts");

    // Token is gone now.
    assert!(store.take(&token).is_none());
}

#[test]
fn lockout_expires_on_the_store_clock() {
    let mut store = LoginAttemptStore::new();
    for i in 0..5u64 {
        let (locked, secs) = store.record_failure_at("frank", i * 1_000_000_000);
        assert_eq!(locked, i == 4);
        assert_eq!(secs, if i == 4 { 900 } else { 0 });
    }
    // Locked at 4 s until 904 s: 899.5 s left -> 900 retry seconds.
    assert_eq!(store.check_locked_at("frank", 4_500_000_000), (true, 900));
    assert_eq!(store.check_locked_at("frank", 903_999_999_999), (true, 1));
    assert_eq!(store.check_locked_at("frank", 904_000_000_000), (false, 0));
}

#[test]
fn failures_outside_the_window_restart_the_count() {
    let mut store = LoginAttemptStore::new();
    for _ in 0..4 {
        assert_eq!(store.record_failure_at("gina", 0), (false, 0));
    }
    // 10 min + 1 ns later the window has expired: the count restarts at 1.
    assert_eq!(store.record_failure_at("gina", 600_000_000_001), (false, 0));
    for _ in 0..3 {
        assert_eq!(store.record_failure_at("gina", 600_000_000_002), (false, 0));
    }
    assert_eq!(store.record_failure_at("gina", 600_000_000_003), (true, 900));
}

#[test]
fn expired_pending_login_is_not_returned() {
    let mut store = PendingTotpStore::new();
    let p = PendingTotp::new("uid".to_string(), "hal".to_string(), true);
    store.insert_at("t1".to_string(), p, 0, 0);
    // Exactly 5 minutes later the token is expired.
    assert!(store.take_at("t1", 300_000_000_000).is_none());
    let p = PendingTotp::new("uid".to_string(), "hal".to_string(), true);
    store.insert_at("t2".to_string(), p, 0, 0);
    assert!(store.take_at("t2", 299_999_999_999).is_some());
}

#[test]
fn full_pending_store_evicts_the_oldest() {
    let mut store = PendingTotpStore::new();
    for i in 0..500u64 {
        let p = PendingTotp::new(format!("u{i}"), format!("n{i}"), false);
        store.insert_at(format!("tok{i}"), p, 1000 + i, 1000);
    }
    let p = PendingTotp::new("new".to_string(), "new".to_string(), false);
    store.insert_at("newest".to_string(), p, 2000, 2000);
    // tok0 (the oldest) was evicted; tok1 remains.
    assert!(store.take_at("tok0", 2000).is_none());
    assert_eq!(store.take_at("tok1", 2000).unwrap().user_id, "u1");
    assert_eq!(store.take_at("newest", 2000).unwrap().username, "new");
}

#[test]
fn password_login_steps() {
    let mut store = ironshelf::login_state::LoginAttemptStore::new();
    assert!(store.login_gate_at("ann", 0).is_ok());
    assert!(matches!(store.password_checked_at("ghost", false, false, 0), Err(ironshelf::error::AppError::Unauthorized(_))));
    for t in 1..5u64 {
        match store.password_checked_at("ann", true, false, t) {
            Err(ironshelf::error::AppError::Unauthorized(m)) => assert_eq!(m, "Invalid credentials"),
            _ => panic!("expected 401"),
        }
    }
    assert!(matches!(store.password_checked_at("ann", true, false, 5), Err(ironshelf::error::AppError::TooManyRequests(900))));
    assert!(matches!(store.login_gate_at("ann", 6), Err(ironshelf::error::AppError::TooManyRequests(_))));
    assert!(store.password_checked_at("bob", true, true, 6).is_ok());
    assert!(store.login_gate_at("bob", 6).is_ok());
}
