use ironshelf::admin::{
    browse_target, default_true, has_client_secret, incoming_secret, is_listed_directory,
    provider_response, roots_listing, validate_library_path, validate_provider_kind, BrowseQuery,
    UpsertProviderRequest,
};
use ironshelf::error::AppError;

#[test]
fn provider_kinds_and_secrets() {
    assert!(default_true());
    assert!(validate_provider_kind("oidc").is_ok());
    assert!(validate_provider_kind("oauth2").is_ok());
    match validate_provider_kind("saml") {
        Err(AppError::BadRequest(m)) => assert_eq!(m, "kind must be 'oidc' or 'oauth2'"),
        _ => panic!("expected a bad request"),
    }
    assert_eq!(incoming_secret(&Some("s".to_string())), Some("s".to_string()));
    assert_eq!(incoming_secret(&Some(String::new())), None);
    assert_eq!(incoming_secret(&None), None);
    assert!(has_client_secret(&Some("x".to_string())));
    assert!(!has_client_secret(&Some(String::new())));
}

#[test]
fn provider_responses_hide_the_secret() {
    let body = UpsertProviderRequest {
        kind: "oidc".to_string(),
        display_name: "Corp".to_string(),
        client_id: "cid".to_string(),
        client_secret: Some("hidden".to_string()),
        issuer_url: Some("https://id".to_string()),
        authorize_url: None,
        token_url: None,
        userinfo_url: None,
        scopes: None,
        enabled: true,
        auto_register: false,
    };
    let r = provider_response("p1".to_string(), body, &Some("stored".to_string()));
    assert_eq!(r.id, "p1");
    assert_eq!(r.display_name, "Corp");
    assert!(r.has_client_secret);
    assert!(r.enabled && !r.auto_register);
}

#[test]
fn filesystem_browser() {
    assert_eq!(browse_target(&BrowseQuery { path: Some("/srv".to_string()) }), Some("/srv".to_string()));
    assert_eq!(browse_target(&BrowseQuery { path: Some(String::new()) }), None);
    let listing = roots_listing(vec!["/".to_string()], "/".to_string());
    assert_eq!(listing.current_path, "");
    assert_eq!(listing.parent_path, None);
    assert_eq!(listing.entries.len(), 1);
    assert_eq!(listing.entries[0].name, "/");
    assert_eq!(listing.entries[0].path, "/");
    assert!(listing.entries[0].is_directory);
    assert!(is_listed_directory("books"));
    assert!(!is_listed_directory(".cache"));
}

#[test]
fn library_paths() {
    let calibre = validate_library_path("/lib".to_string(), true, false, Some("calibre"));
    assert!(!calibre.valid);
    let folder = validate_library_path("/lib".to_string(), true, false, Some("folder"));
    assert!(folder.valid);
    let missing = validate_library_path("/nope".to_string(), false, true, None);
    assert!(!missing.valid && !missing.has_metadata_db);
    assert!(validate_library_path("/lib".to_string(), true, true, Some("calibre")).valid);
}
