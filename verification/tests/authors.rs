use ironshelf::authors::{
    accepted_photo_type, author_photo_key, author_photo_olid, author_photo_url, cached_photo_action,
    check_photo_prefetch, photo_prefetch_names, CachedPhoto,
};
use ironshelf::authors::{
    author_images_enabled, author_images_setting_value, author_listing_order,
    check_settings_owner, normalize_author_name, password_update, server_settings,
    settings_writeback_mode,
};
use ironshelf::error::AppError;
use ironshelf::model::Author;
use ironshelf::pagination::SortParams;

fn author(id: i64, name: &str, sort_name: &str, books: i64) -> Author {
    Author { id, name: name.to_string(), sort_name: sort_name.to_string(), book_count: books, series_count: 0 }
}

fn sort(field: Option<&str>, dir: Option<&str>) -> SortParams {
    SortParams { sort: field.map(|s| s.to_string()), dir: dir.map(|s| s.to_string()) }
}

#[test]
fn author_names() {
    assert_eq!(normalize_author_name("Austen, Jane"), "Jane Austen");
}

#[test]
fn author_orders() {
    let authors = vec![
        author(1, "Zadie Smith", "Smith, Zadie", 3),
        author(2, "jane austen", "Austen, Jane", 10),
        author(3, "Iain Banks", "banks, iain", 3),
    ];
    assert_eq!(author_listing_order(&authors, &sort(None, None)), vec![1, 2, 0]);
    assert_eq!(author_listing_order(&authors, &sort(Some("name"), None)), vec![2, 1, 0]);
    assert_eq!(author_listing_order(&authors, &sort(Some("book_count"), None)), vec![0, 2, 1]);
    assert_eq!(author_listing_order(&authors, &sort(Some("book_count"), Some("desc"))), vec![1, 2, 0]);
}

#[test]
fn settings() {
    assert!(author_images_enabled(None));
    assert!(author_images_enabled(Some("true")));
    assert!(!author_images_enabled(Some("false")));
    assert_eq!(author_images_setting_value(false), "false");
    let s = server_settings(Some("false"), String::new(), "calibredb".to_string(), String::new(), String::new(), String::new(), "pw");
    assert!(!s.author_images_enabled);
    assert_eq!(s.calibre_writeback_mode, "none");
    assert!(s.calibre_cs_password_set);
    assert!(check_settings_owner(true).is_ok());
    match check_settings_owner(false) {
        Err(AppError::Forbidden(m)) => assert_eq!(m, "Only the server owner can change settings"),
        _ => panic!("expected forbidden"),
    }
    assert_eq!(settings_writeback_mode(" calibredb ").ok(), Some("calibredb".to_string()));
    match settings_writeback_mode("ftp") {
        Err(AppError::BadRequest(m)) => assert_eq!(m, "invalid calibre_writeback_mode: ftp"),
        _ => panic!("expected a bad request"),
    }
    assert_eq!(password_update(&Some("p".to_string())), Some("p"));
    assert_eq!(password_update(&Some(String::new())), None);
    assert_eq!(password_update(&None), None);
}

#[test]
fn photo_keys_and_prefetch_names() {
    assert_eq!(author_photo_key("  Jane AUSTEN "), "jane austen");
    let names = vec![
        "Jane Austen".to_string(),
        "  ".to_string(),
        "jane austen ".to_string(),
        "Bram Stoker".to_string(),
        "JANE AUSTEN".to_string(),
    ];
    assert_eq!(photo_prefetch_names(&names), vec![0, 3]);
    assert!(photo_prefetch_names(&Vec::new()).is_empty());
}

#[test]
fn photo_prefetch_permissions() {
    match check_photo_prefetch(false, true) {
        Err(ironshelf::error::AppError::Forbidden(m)) => assert_eq!(m, "Only the server owner can do this"),
        _ => panic!("expected forbidden"),
    }
    match check_photo_prefetch(true, false) {
        Err(ironshelf::error::AppError::BadRequest(m)) => {
            assert_eq!(m, "Author photos are disabled \u{2014} enable them first")
        }
        _ => panic!("expected bad request"),
    }
    assert!(check_photo_prefetch(true, true).is_ok());
}

#[test]
fn photo_lookup_steps() {
    assert_eq!(
        author_photo_olid(&vec![None, Some("OL23919A".to_string()), Some("OL1A".to_string())]).as_deref(),
        Some("OL23919A")
    );
    assert_eq!(author_photo_olid(&vec![None]), None);
    assert_eq!(author_photo_url("OL23919A"), "https://covers.openlibrary.org/a/olid/OL23919A-L.jpg?default=false");
    assert_eq!(accepted_photo_type(None, 10).as_deref(), Some("image/jpeg"));
    assert_eq!(accepted_photo_type(Some("image/png"), 10).as_deref(), Some("image/png"));
    assert_eq!(accepted_photo_type(Some("text/html"), 10), None);
    assert_eq!(accepted_photo_type(Some("image/png"), 0), None);
    assert!(matches!(cached_photo_action(Some((true, false))), CachedPhoto::Missing));
    assert!(matches!(cached_photo_action(Some((false, true))), CachedPhoto::Serve));
    assert!(matches!(cached_photo_action(Some((false, false))), CachedPhoto::Fetch));
    assert!(matches!(cached_photo_action(None), CachedPhoto::Fetch));
}
