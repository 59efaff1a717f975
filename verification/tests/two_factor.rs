use ironshelf::auth::hash_password;
use ironshelf::error::AppError;
use ironshelf::login_state::{PendingTotp, PendingTotpStore};
use ironshelf::two_factor::{
    begin_two_factor, matching_recovery_code, reject_two_factor_code, verify_totp_code,
};

const RFC_SECRET: &str = "GEZDGNBVGY3TQOJQGEZDGNBVGY3TQOJQ";

fn internal(r: Result<bool, AppError>) -> String {
    match r {
        Err(AppError::Internal(m)) => m,
        _ => panic!("expected an internal error"),
    }
}

#[test]
fn totp_codes_of_the_rfc_vectors() {
    assert_eq!(verify_totp_code(RFC_SECRET, "alice", "287082", Some(59)).ok(), Some(true));
    assert_eq!(verify_totp_code(RFC_SECRET, "alice", "081804", Some(1111111109)).ok(), Some(true));
    assert_eq!(verify_totp_code(RFC_SECRET, "alice", "081804", Some(1111111109 + 30)).ok(), Some(true));
    assert_eq!(verify_totp_code(RFC_SECRET, "alice", "081804", Some(1111111109 + 90)).ok(), Some(false));
    assert_eq!(verify_totp_code(RFC_SECRET, "alice", "000000", Some(59)).ok(), Some(false));
    assert_eq!(verify_totp_code(RFC_SECRET, "alice", "287082", None).ok(), Some(false));
}

#[test]
fn unusable_secrets() {
    assert_eq!(
        internal(verify_totp_code("not base32!", "alice", "123456", Some(59))),
        "secret decode: Could not decode base32 secret."
    );
    assert_eq!(
        internal(verify_totp_code("GEZDGNBVGY3TQOJQ", "alice", "123456", Some(59))),
        "totp init: The length of the shared secret MUST be at least 128 bits. 80 bits is not enough"
    );
    assert_eq!(
        internal(verify_totp_code(RFC_SECRET, "a:b", "123456", Some(59))),
        "totp init: Account Name can't contain a colon. \"a:b\" contains a colon"
    );
}

#[test]
fn recovery_codes() {
    let hashes = vec![
        hash_password("first-code").unwrap(),
        hash_password("second-code").unwrap(),
        hash_password("second-code").unwrap(),
    ];
    assert_eq!(matching_recovery_code("second-code", &hashes), Some(1));
    assert_eq!(matching_recovery_code("first-code", &hashes), Some(0));
    assert_eq!(matching_recovery_code("other", &hashes), None);
    assert_eq!(matching_recovery_code("first-code", &vec![]), None);
}

#[test]
fn pending_logins_are_taken_and_put_back() {
    let mut store = PendingTotpStore::new();
    store.insert("tok".to_string(), PendingTotp::new("u1".to_string(), "alice".to_string(), false));
    let pending = begin_two_factor(&mut store, "tok").ok().unwrap();
    assert_eq!(pending.user_id, "u1");
    assert_eq!(pending.attempt_count, 1);
    match begin_two_factor(&mut store, "tok") {
        Err(AppError::Unauthorized(m)) => assert_eq!(m, "Invalid or expired 2FA token"),
        _ => panic!("the token was taken"),
    }
    match reject_two_factor_code(&mut store, "tok".to_string(), pending) {
        AppError::Unauthorized(m) => assert_eq!(m, "Invalid 2FA code"),
        _ => panic!("expected unauthorized"),
    }
    let again = begin_two_factor(&mut store, "tok").ok().unwrap();
    assert_eq!(again.attempt_count, 2);
    assert!(begin_two_factor(&mut store, "unknown").is_err());
}

#[test]
fn attempts_run_out() {
    let mut store = PendingTotpStore::new();
    store.insert("tok".to_string(), PendingTotp::new("u1".to_string(), "alice".to_string(), false));
    for expected in 1..6u32 {
        let pending = begin_two_factor(&mut store, "tok").ok().unwrap();
        assert_eq!(pending.attempt_count, expected);
        reject_two_factor_code(&mut store, "tok".to_string(), pending);
    }
    assert!(begin_two_factor(&mut store, "tok").is_err());
    assert!(begin_two_factor(&mut store, "tok").is_err());
}
