use ironshelf::access::{accessible_library_ids, library_allowed, GrantLookup};
use ironshelf::auth::{
    extract_session_cookie, is_local_ip, is_media_route, local_bypass_allowed,
    media_token_candidate, parse_query_param, require_owner, select_credential, split_api_key,
    AuthUser, Credential, HeaderText, IpAddress,
};
use ironshelf::error::AppError;

fn user(is_owner: bool) -> AuthUser {
    AuthUser { user_id: "u1".to_string(), username: "alice".to_string(), is_owner, session_id: None }
}

#[test]
fn owner_checks() {
    assert!(require_owner(&user(true)).is_ok());
    match require_owner(&user(false)) {
        Err(AppError::Forbidden(m)) => assert_eq!(m, "Owner access required"),
        _ => panic!("expected forbidden"),
    }
}

#[test]
fn media_routes() {
    assert!(is_media_route("/api/v1/books/12/cover"));
    assert!(is_media_route("api/v1/books/12/file/"));
    assert!(is_media_route("/api/v1/authors/3/photo"));
    assert!(!is_media_route("/api/v1/books/12/progress"));
    assert!(!is_media_route("/api/v1/books/12/cover/extra"));
}

#[test]
fn query_params() {
    assert_eq!(parse_query_param("a=1&token=xyz&token=2", "token"), Some("xyz".to_string()));
    assert_eq!(parse_query_param("a=1&b", "b"), None);
    assert_eq!(parse_query_param("x=%20y", "x"), Some("%20y".to_string()));
    assert_eq!(parse_query_param("", "x"), None);
}

#[test]
fn session_cookies() {
    assert_eq!(
        extract_session_cookie("theme=dark; ironshelf_session=abc123; other=1"),
        Some("abc123".to_string())
    );
    assert_eq!(extract_session_cookie("theme=dark"), None);
}

#[test]
fn local_addresses() {
    assert!(is_local_ip(IpAddress::V4(127, 0, 0, 1)));
    assert!(is_local_ip(IpAddress::V4(172, 20, 1, 1)));
    assert!(!is_local_ip(IpAddress::V4(172, 32, 1, 1)));
    assert!(is_local_ip(IpAddress::V4(192, 168, 0, 9)));
    assert!(!is_local_ip(IpAddress::V4(8, 8, 8, 8)));
    assert!(is_local_ip(IpAddress::V6(0, 0, 0, 0, 0, 0, 0, 1)));
    assert!(is_local_ip(IpAddress::V6(0xfd12, 0, 0, 0, 0, 0, 0, 1)));
    assert!(is_local_ip(IpAddress::V6(0xfe80, 0, 0, 0, 0, 0, 0, 1)));
    assert!(!is_local_ip(IpAddress::V6(0x2001, 0xdb8, 0, 0, 0, 0, 0, 1)));
}

#[test]
fn credential_order() {
    let bearer = HeaderText::Text("Bearer irs_ab.cd".to_string());
    let cookie = HeaderText::Text("ironshelf_session=s1".to_string());
    assert_eq!(select_credential(&bearer, &cookie, Some("q")), Credential::ApiKey("irs_ab.cd".to_string()));
    assert_eq!(
        select_credential(&HeaderText::Absent, &cookie, Some("q")),
        Credential::Session("s1".to_string())
    );
    assert_eq!(
        select_credential(&HeaderText::Text("Basic x".to_string()), &HeaderText::Absent, Some("sess")),
        Credential::Session("sess".to_string())
    );
    assert_eq!(select_credential(&HeaderText::Unreadable, &cookie, None), Credential::Malformed);
    assert_eq!(select_credential(&HeaderText::Absent, &HeaderText::Absent, None), Credential::Missing);
}

#[test]
fn api_keys() {
    assert_eq!(split_api_key("irs_abcd.s3cret.x").ok(), Some(("abcd".to_string(), "s3cret.x".to_string())));
    assert!(matches!(split_api_key("irs_nodot"), Err(AppError::Unauthorized(_))));
    assert!(matches!(split_api_key("abcd.efg"), Err(AppError::Unauthorized(_))));
}

#[test]
fn local_bypass_guards() {
    let lan = Some(IpAddress::V4(192, 168, 1, 2));
    assert!(local_bypass_allowed(Some("true"), false, None, lan));
    assert!(local_bypass_allowed(Some("true"), false, Some("none"), lan));
    assert!(local_bypass_allowed(Some("true"), false, Some(""), lan));
    assert!(!local_bypass_allowed(Some("true"), false, Some("upnp"), lan));
    assert!(!local_bypass_allowed(Some("true"), true, None, lan));
    assert!(!local_bypass_allowed(Some("false"), false, None, lan));
    assert!(!local_bypass_allowed(None, false, None, lan));
    assert!(!local_bypass_allowed(Some("true"), false, None, Some(IpAddress::V4(1, 2, 3, 4))));
    assert!(!local_bypass_allowed(Some("true"), false, None, None));
}

#[test]
fn media_candidates() {
    assert_eq!(
        media_token_candidate("/api/v1/books/1/cover", Some("u.12.sig"), Some("other")),
        Some("u.12.sig".to_string())
    );
    assert_eq!(
        media_token_candidate("/api/v1/books/1/cover", None, Some("u.12.sig")),
        Some("u.12.sig".to_string())
    );
    assert_eq!(media_token_candidate("/api/v1/books/1/cover", Some("irs_a.1.b"), None), None);
    assert_eq!(media_token_candidate("/api/v1/libraries", Some("u.12.sig"), None), None);
}

#[test]
fn library_access() {
    let grants = Some(vec!["lib1".to_string(), "lib2".to_string()]);
    assert!(library_allowed(&grants, "lib2"));
    assert!(!library_allowed(&grants, "lib3"));
    assert!(library_allowed(&None, "anything"));
    assert_eq!(accessible_library_ids(&user(true), GrantLookup::Failed), None);
    assert_eq!(accessible_library_ids(&user(false), GrantLookup::NoGrants), None);
    let failed = accessible_library_ids(&user(false), GrantLookup::Failed);
    assert_eq!(failed, Some(vec![]));
    assert!(!library_allowed(&failed, "lib1"));
    assert_eq!(
        accessible_library_ids(&user(false), GrantLookup::Granted(vec!["x".to_string()])),
        Some(vec!["x".to_string()])
    );
}
