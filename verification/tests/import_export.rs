use ironshelf::error::AppError;
use ironshelf::import_export::{
    check_document_version, import_collection_name, is_duplicate_library, progress_import_wins,
    ImportResult, StoredLibrary,
};
use ironshelf::model::{LibraryType, SourceKind};
use ironshelf::search_index::SearchIndexError;

fn library(name: &str, path: &str) -> StoredLibrary {
    StoredLibrary {
        id: "l".to_string(),
        name: name.to_string(),
        library_type: "books".to_string(),
        source_kind: "calibre".to_string(),
        path: path.to_string(),
        options_json: None,
        created_at: "t".to_string(),
    }
}

#[test]
fn versions() {
    assert!(check_document_version(1, false).is_ok());
    match check_document_version(2, false) {
        Err(AppError::BadRequest(m)) => assert_eq!(m, "unsupported export version: 2 (expected 1)"),
        _ => panic!("expected a bad request"),
    }
    match check_document_version(3, true) {
        Err(AppError::BadRequest(m)) => assert_eq!(m, "unsupported library config version: 3 (expected 1)"),
        _ => panic!("expected a bad request"),
    }
}

#[test]
fn newer_progress_wins() {
    assert!(progress_import_wins("2024-01-02T00:00:00Z", None));
    assert!(progress_import_wins("2024-01-02T00:00:00Z", Some("2024-01-01T00:00:00Z")));
    assert!(!progress_import_wins("2024-01-01T00:00:00Z", Some("2024-01-01T00:00:00Z")));
    assert!(!progress_import_wins("2023-12-31T00:00:00Z", Some("2024-01-01T00:00:00Z")));
    assert!(!progress_import_wins("2024", Some("2024-01")));
}

#[test]
fn imported_collection_names() {
    assert_eq!(import_collection_name("  Faves "), Some("Faves".to_string()));
    assert_eq!(import_collection_name("  "), None);
}

#[test]
fn counting_an_import() {
    let mut r = ImportResult::new();
    r.note_progress_upserted();
    assert!(r.note_bookmark(0));
    assert!(!r.note_bookmark(2));
    r.note_collection(true);
    r.note_collection(false);
    assert!(r.note_collection_book(0));
    assert!(!r.note_collection_book(1));
    assert_eq!(r.reading_progress_upserted, 1);
    assert_eq!(r.bookmarks_inserted, 1);
    assert_eq!(r.bookmarks_skipped_duplicate, 1);
    assert_eq!(r.collections_merged, 1);
    assert_eq!(r.collections_created, 1);
    assert_eq!(r.collection_books_added, 1);
}

#[test]
fn duplicate_libraries() {
    let existing = vec![library("Main", "/books"), library("Comics", "/comics")];
    assert!(is_duplicate_library(&existing, "Main", "/books"));
    assert!(!is_duplicate_library(&existing, "Main", "/comics"));
    assert!(!is_duplicate_library(&vec![], "Main", "/books"));
}

#[test]
fn library_type_names_and_index_errors() {
    assert_eq!(LibraryType::LightNovel.name(), "light_novel");
    assert_eq!(SourceKind::Folder.name(), "folder");
    assert_eq!(SearchIndexError::Query("bad".to_string()).message(), "query parse error: bad");
    assert_eq!(SearchIndexError::Io("x".to_string()).message(), "IO error: x");
}
