use ironshelf::acquisition_api::{
    check_retry, check_wanted_item_access, download_list_limit, grab_title,
    initial_download_status, new_indexer_response, validate_client_type, validate_create_indexer,
    validate_grab, validate_item_type, validate_search_query, validate_update_indexer,
    AcquisitionSearchQuery, CreateIndexerRequest, DownloadListQuery, GrabRequest,
    UpdateIndexerRequest,
};
use ironshelf::auth::AuthUser;
use ironshelf::error::AppError;

fn bad_api(r: Result<(), AppError>) -> String {
    match r {
        Err(AppError::BadRequest(m)) => m,
        _ => panic!("expected a bad request"),
    }
}

fn indexer(kind: &str, name: &str, url: &str) -> CreateIndexerRequest {
    CreateIndexerRequest {
        name: name.to_string(),
        indexer_type: kind.to_string(),
        url: url.to_string(),
        api_key: None,
        categories: None,
        priority: None,
        search_interval_minutes: None,
    }
}

#[test]
fn indexer_checks_in_order() {
    assert!(validate_create_indexer(&indexer("torznab", "Jackett", "http://localhost:9117")).is_ok());
    assert_eq!(
        bad_api(validate_create_indexer(&indexer("usenet", "", ""))),
        "Invalid indexer_type: usenet. Valid types: torznab, newznab, rss, custom"
    );
    assert_eq!(bad_api(validate_create_indexer(&indexer("rss", " ", ""))), "Name is required");
    assert_eq!(bad_api(validate_create_indexer(&indexer("rss", "n", " "))), "URL is required");
    assert_eq!(
        bad_api(validate_create_indexer(&indexer("rss", "n", "ftp://x"))),
        "URL must start with http:// or https://"
    );
    let update = UpdateIndexerRequest {
        name: None,
        url: Some("example.org".to_string()),
        api_key: None,
        categories: None,
        is_enabled: None,
        priority: None,
        search_interval_minutes: None,
    };
    assert_eq!(bad_api(validate_update_indexer(&update)), "URL must start with http:// or https://");
}

#[test]
fn indexer_responses_default_their_settings() {
    let r = new_indexer_response("id1".to_string(), indexer("newznab", "N", "https://n"), "now".to_string());
    assert_eq!(r.id, "id1");
    assert!(r.is_enabled);
    assert_eq!(r.last_searched_at, None);
    assert_eq!(r.priority, 50);
    assert_eq!(r.search_interval_minutes, 60);
    assert_eq!(r.created_at, "now");
}

#[test]
fn type_lists() {
    assert!(validate_client_type("deluge").is_ok());
    assert_eq!(
        bad_api(validate_client_type("utorrent")),
        "Invalid client_type: utorrent. Valid types: qbittorrent, transmission, deluge, rtorrent, direct"
    );
    assert!(validate_item_type("series").is_ok());
    assert_eq!(bad_api(validate_item_type("film")), "Invalid item_type: film. Valid types: book, author, series");
}

#[test]
fn grabs_and_downloads() {
    let grab = GrabRequest {
        download_url: " ".to_string(),
        magnet_url: None,
        indexer_id: None,
        download_client_id: None,
        target_library_id: None,
        title: None,
        size_bytes: None,
    };
    assert_eq!(bad_api(validate_grab(&grab)), "download_url is required");
    assert_eq!(grab_title(Some("A"), Some("B")), "A");
    assert_eq!(grab_title(None, Some("B")), "B");
    assert_eq!(grab_title(None, None), "Unknown");
    assert_eq!(initial_download_status(true), "downloading");
    assert_eq!(initial_download_status(false), "failed");
    assert_eq!(download_list_limit(&DownloadListQuery { status: None, limit: None }), 50);
    assert_eq!(download_list_limit(&DownloadListQuery { status: None, limit: Some(0) }), 1);
    assert_eq!(download_list_limit(&DownloadListQuery { status: None, limit: Some(999) }), 200);
    assert!(check_retry("failed").is_ok());
    assert_eq!(bad_api(check_retry("completed")), "Only failed downloads can be retried");
    assert_eq!(
        bad_api(validate_search_query(&AcquisitionSearchQuery { q: "".to_string(), author: None })),
        "Search query (q) is required"
    );
}

#[test]
fn wanted_item_access() {
    let user = AuthUser { user_id: "u2".to_string(), username: "b".to_string(), is_owner: false, session_id: None };
    match check_wanted_item_access("u1", &user) {
        Err(AppError::Forbidden(m)) => assert_eq!(m, "You do not own this wanted item"),
        _ => panic!("expected forbidden"),
    }
    assert!(check_wanted_item_access("u2", &user).is_ok());
}
