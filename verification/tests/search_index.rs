use ironshelf::search_index::{entry_document, search_hit, BookIndexEntry, SearchIndexError};

#[test]
fn index_documents() {
    let entry = BookIndexEntry {
        book_id: -7,
        title: "Emma".to_string(),
        author_names: "Jane Austen".to_string(),
        series_name: None,
        tags: "Classics, Romance".to_string(),
        description: Some("A novel.".to_string()),
        library_id: "lib1".to_string(),
    };
    let d = entry_document(&entry);
    assert_eq!(d.book_id, "-7");
    assert_eq!(d.series_name, "");
    assert_eq!(d.description, "A novel.");
    assert_eq!(d.tags, "Classics, Romance");
    assert_eq!(d.library_id, "lib1");
}

#[test]
fn index_hits() {
    let h = search_hit(Some("42"), Some("Emma"), None, Some("lib1"));
    assert_eq!(h.book_id, 42);
    assert_eq!(h.title, "Emma");
    assert_eq!(h.author_names, "");
    assert_eq!(h.library_id, "lib1");
    assert_eq!(search_hit(None, None, None, None).book_id, 0);
    assert_eq!(search_hit(Some("x1"), None, None, None).book_id, 0);
    assert_eq!(search_hit(Some("99999999999999999999"), None, None, None).book_id, 0);
    assert_eq!(search_hit(Some("+5"), None, None, None).book_id, 5);
}

#[test]
fn index_error_messages() {
    assert_eq!(SearchIndexError::Io("x".to_string()).message(), "IO error: x");
    assert_eq!(SearchIndexError::Tantivy("y".to_string()).message(), "tantivy error: y");
    assert_eq!(SearchIndexError::Query("z".to_string()).message(), "query parse error: z");
}
