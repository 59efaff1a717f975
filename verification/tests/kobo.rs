use ironshelf::error::AppError;
use ironshelf::kobo::{contributors, epub_format, kobo_download_format, kobo_entitlement, sync_entitlements, KoboBook};
use ironshelf::model::{Author, Format};

fn kobo_format(kind: &str, size: Option<u64>) -> Format {
    Format { kind: kind.to_string(), size, file_name: "book".to_string() }
}

fn kobo_author(id: i64, name: &str) -> Author {
    Author { id, name: name.to_string(), sort_name: name.to_string(), book_count: 1, series_count: 0 }
}

fn kobo_book(id: i64, formats: Vec<Format>) -> KoboBook {
    KoboBook {
        id,
        title: format!("Book {}", id),
        author_ids: vec![2, 9, 1],
        formats,
        languages: Vec::new(),
        description: None,
        pubdate: None,
        added_at: None,
    }
}

#[test]
fn kobo_epub_found_ignoring_case() {
    assert_eq!(epub_format(&vec![kobo_format("PDF", None), kobo_format("epub", Some(3))]), Some(1));
    assert_eq!(epub_format(&vec![kobo_format("PDF", None), kobo_format("MOBI", None)]), None);
    assert_eq!(epub_format(&Vec::new()), None);
}

#[test]
fn kobo_contributors_resolved_by_id() {
    let authors = vec![kobo_author(1, "Ann"), kobo_author(2, "Bob"), kobo_author(2, "Bob Again")];
    assert_eq!(contributors(&vec![2, 9, 1], &authors), vec!["Bob".to_string(), "Ann".to_string()]);
    assert!(contributors(&vec![5], &authors).is_empty());
}

#[test]
fn kobo_entitlement_with_defaults() {
    let authors = vec![kobo_author(1, "Ann"), kobo_author(2, "Bob")];
    let book = kobo_book(42, vec![kobo_format("EPUB", None)]);
    let e = kobo_entitlement(&book, &authors, "http://host:8080", "tok").unwrap();
    assert_eq!(e.contributors, vec!["Bob".to_string(), "Ann".to_string()]);
    assert_eq!(e.description, "");
    assert_eq!(e.download_format, "EPUB");
    assert_eq!(e.download_size, 0);
    assert_eq!(e.download_url, "http://host:8080/kobo/tok/v1/books/42/file/epub");
    assert_eq!(e.entitlement_id, "ironshelf-42");
    assert_eq!(e.language, "en");
    assert_eq!(e.publication_date, "1970-01-01T00:00:00Z");
    assert_eq!(e.publisher, "");
    assert_eq!(e.revision_id, "ironshelf-42-1");
    assert_eq!(e.title, "Book 42");
    assert_eq!(e.work_id, "ironshelf-42");
    assert_eq!(e.cover_image_id, "ironshelf-42");
    assert_eq!(e.metadata_last_modified, "1970-01-01T00:00:00Z");
    assert_eq!(e.last_modified, "1970-01-01T00:00:00Z");
    assert_eq!(e.status, "Active");
}

#[test]
fn kobo_entitlement_with_book_data() {
    let mut book = kobo_book(7, vec![kobo_format("Epub", Some(12345))]);
    book.languages = vec!["fr".to_string(), "en".to_string()];
    book.description = Some("Roman".to_string());
    book.pubdate = Some("1862-04-03".to_string());
    book.added_at = Some("2024-01-02T03:04:05+00:00".to_string());
    let e = kobo_entitlement(&book, &Vec::new(), "http://h", "t").unwrap();
    assert!(e.contributors.is_empty());
    assert_eq!(e.download_size, 12345);
    assert_eq!(e.language, "fr");
    assert_eq!(e.description, "Roman");
    assert_eq!(e.publication_date, "1862-04-03T00:00:00Z");
    assert_eq!(e.last_modified, "2024-01-02T03:04:05+00:00");
    assert_eq!(e.metadata_last_modified, "2024-01-02T03:04:05+00:00");
}

#[test]
fn kobo_books_without_epub_are_not_offered() {
    let books = vec![
        kobo_book(1, vec![kobo_format("PDF", None)]),
        kobo_book(2, vec![kobo_format("EPUB", Some(1))]),
        kobo_book(3, Vec::new()),
        kobo_book(4, vec![kobo_format("mobi", None), kobo_format("EPUB", Some(2))]),
    ];
    assert!(kobo_entitlement(&books[0], &Vec::new(), "http://h", "t").is_none());
    let out = sync_entitlements(&books, &Vec::new(), "http://h", "t");
    let ids: Vec<String> = out.iter().map(|e| e.entitlement_id.clone()).collect();
    assert_eq!(ids, vec!["ironshelf-2".to_string(), "ironshelf-4".to_string()]);
    assert_eq!(out[1].download_size, 2);
}

#[test]
fn kobo_download_formats() {
    let formats = vec![kobo_format("PDF", None), kobo_format("EPUB", None)];
    assert_eq!(kobo_download_format(&formats, "epub").ok(), Some(1));
    match kobo_download_format(&formats, "mobi") {
        Err(AppError::NotFound(m)) => assert_eq!(m, "Format 'mobi' not available for this book"),
        _ => panic!("expected not found"),
    }
}
