use ironshelf::account::{
    api_key_text, build_session_cookie, check_invite_present, failed_login_error,
    random_token_text, validate_new_password, validate_registration, RegisterRequest,
};
use ironshelf::error::AppError;

fn reg(username: &str, password: &str) -> RegisterRequest {
    RegisterRequest { username: username.to_string(), password: password.to_string(), invite_code: None }
}

fn bad_request_text(r: Result<String, AppError>) -> String {
    match r {
        Err(AppError::BadRequest(m)) => m,
        _ => panic!("expected a bad request"),
    }
}

#[test]
fn registrations() {
    assert_eq!(validate_registration(&reg("  alice ", "password1")).ok(), Some("alice".to_string()));
    assert_eq!(bad_request_text(validate_registration(&reg("alice", "short"))), "Password must be at least 8 characters");
    assert_eq!(
        bad_request_text(validate_registration(&reg("alice", &"x".repeat(1025)))),
        "Password must not exceed 1024 characters"
    );
    assert_eq!(bad_request_text(validate_registration(&reg("   ", "password1"))), "Username must be 1-64 characters");
    assert_eq!(bad_request_text(validate_registration(&reg(&"é".repeat(65), "password1"))), "Username must be 1-64 characters");
    assert!(validate_registration(&reg(&"é".repeat(64), "password1")).is_ok());
    assert!(validate_registration(&reg(&"x".repeat(64), "password1")).is_ok());
    assert_eq!(
        bad_request_text(validate_registration(&reg("al\u{7}ice", "password1"))),
        "Username must not contain control characters"
    );
}

#[test]
fn invites() {
    assert!(check_invite_present(true, None).is_ok());
    assert!(check_invite_present(false, Some("code")).is_ok());
    match check_invite_present(false, Some("")) {
        Err(AppError::Forbidden(m)) => assert_eq!(m, "Invite code required"),
        _ => panic!("expected forbidden"),
    }
    assert!(check_invite_present(false, None).is_err());
}

#[test]
fn new_passwords() {
    assert!(validate_new_password("12345678").is_ok());
    match validate_new_password("1234567") {
        Err(AppError::BadRequest(m)) => assert_eq!(m, "New password must be at least 8 characters"),
        _ => panic!("expected a bad request"),
    }
    match validate_new_password(&"y".repeat(1025)) {
        Err(AppError::BadRequest(m)) => assert_eq!(m, "New password must not exceed 1024 characters"),
        _ => panic!("expected a bad request"),
    }
}

#[test]
fn failed_logins() {
    assert!(matches!(failed_login_error(true, 900), AppError::TooManyRequests(900)));
    match failed_login_error(false, 0) {
        AppError::Unauthorized(m) => assert_eq!(m, "Invalid credentials"),
        _ => panic!("expected unauthorized"),
    }
}

#[test]
fn cookies_and_keys() {
    assert_eq!(
        build_session_cookie("sid", false, None),
        "ironshelf_session=sid; HttpOnly; SameSite=Lax; Path=/; Max-Age=604800"
    );
    assert_eq!(
        build_session_cookie("sid", false, Some("HTTPS")),
        "ironshelf_session=sid; HttpOnly; SameSite=Lax; Path=/; Max-Age=604800; Secure"
    );
    assert!(build_session_cookie("sid", true, Some("http")).ends_with("; Secure"));
    assert_eq!(api_key_text("abcd", "s3"), "irs_abcd.s3");
    assert_eq!(random_token_text(&[0xab, 0x01, 0xff], 3), "ab0");
}

#[test]
fn error_responses() {
    let r = AppError::not_found("book").to_response();
    assert_eq!(r.status, 404);
    assert_eq!(r.code, "not_found");
    assert_eq!(r.message, "book not found");
    let i = AppError::internal("db down").to_response();
    assert_eq!(i.status, 500);
    assert_eq!(i.message, "An internal error occurred");
    assert_eq!(i.log_detail.as_deref(), Some("db down"));
    let t = AppError::TooManyRequests(30).to_response();
    assert_eq!(t.status, 429);
    assert_eq!(t.retry_after, Some(30));
    assert_eq!(t.message, "Too many requests. Please try again later.");
    assert!(matches!(AppError::from_string("x".to_string()), AppError::Internal(_)));
}
