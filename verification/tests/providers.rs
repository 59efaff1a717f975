use ironshelf::metadata::MetadataError;
use ironshelf::providers::{
    google_books_search_url, google_books_volume_url, google_cover_url, google_fetch_metadata, google_isbn,
    google_search_candidates, open_library_cover_url, open_library_document_metadata, open_library_isbn,
    open_library_search_candidates, open_library_search_url, open_library_work_metadata, open_library_work_url,
    GoogleBooksIdentifier, GoogleBooksImageLinks, GoogleBooksItem, GoogleBooksVolumeInfo, OpenLibraryDocument,
    OpenLibraryWork,
};

#[test]
fn provider_request_addresses() {
    assert_eq!(
        google_books_search_url("Dune", Some("Frank Herbert")),
        "https://www.googleapis.com/books/v1/volumes?q=intitle%3ADune%2Binauthor%3AFrank%20Herbert&maxResults=5"
    );
    assert_eq!(
        google_books_search_url("A~b_c.d-e", None),
        "https://www.googleapis.com/books/v1/volumes?q=intitle%3AA~b_c.d-e&maxResults=5"
    );
    assert_eq!(google_books_volume_url("ab/c d"), "https://www.googleapis.com/books/v1/volumes/ab%2Fc%20d");
    assert_eq!(
        open_library_search_url("Le Petit Prince", Some("Saint-Exupéry")),
        "https://openlibrary.org/search.json?title=Le%20Petit%20Prince&limit=5&author=Saint-Exup%C3%A9ry"
    );
    assert_eq!(open_library_search_url("Emma", None), "https://openlibrary.org/search.json?title=Emma&limit=5");
    assert_eq!(open_library_work_url("/works/OL45883W"), "https://openlibrary.org/works/OL45883W.json");
    assert_eq!(open_library_cover_url(8231856), "https://covers.openlibrary.org/b/id/8231856-L.jpg");
}

fn gb_id(t: &str, v: &str) -> GoogleBooksIdentifier {
    GoogleBooksIdentifier { identifier_type: t.to_string(), identifier: v.to_string() }
}

fn gb_info() -> GoogleBooksVolumeInfo {
    GoogleBooksVolumeInfo {
        title: Some("Dune".to_string()),
        authors: Some(vec!["Frank Herbert".to_string()]),
        description: Some("Spice.".to_string()),
        publisher: Some("Chilton".to_string()),
        published_date: Some("1965".to_string()),
        page_count: Some(412),
        categories: None,
        image_links: Some(GoogleBooksImageLinks {
            thumbnail: None,
            small_thumbnail: Some("http://books.google.com/x?img=1&source=http://a".to_string()),
        }),
        industry_identifiers: Some(vec![gb_id("ISBN_10", "0801950775"), gb_id("OTHER", "x"), gb_id("ISBN_13", "9780801950773")]),
    }
}

#[test]
fn google_covers_and_isbns() {
    let links = Some(GoogleBooksImageLinks {
        thumbnail: Some("http://t".to_string()),
        small_thumbnail: Some("http://s".to_string()),
    });
    assert_eq!(google_cover_url(&links).as_deref(), Some("https://t"));
    assert_eq!(google_cover_url(&None), None);
    assert_eq!(google_cover_url(&Some(GoogleBooksImageLinks { thumbnail: None, small_thumbnail: None })), None);
    assert_eq!(google_isbn(&Some(vec![gb_id("ISBN_10", "1"), gb_id("ISBN_13", "2")])).as_deref(), Some("2"));
    assert_eq!(google_isbn(&Some(vec![gb_id("ISBN_10", "1"), gb_id("ISBN_10", "3")])).as_deref(), Some("1"));
    assert_eq!(google_isbn(&Some(vec![gb_id("ISSN", "1")])), None);
    assert_eq!(google_isbn(&None), None);
}

#[test]
fn google_volume_lookup() {
    let m = google_fetch_metadata(&GoogleBooksItem { id: Some("v1".to_string()), volume_info: Some(gb_info()) })
        .ok()
        .unwrap();
    assert_eq!(m.title.as_deref(), Some("Dune"));
    assert_eq!(m.authors, vec!["Frank Herbert".to_string()]);
    assert_eq!(m.cover_url.as_deref(), Some("https://books.google.com/x?img=1&source=https://a"));
    assert_eq!(m.isbn.as_deref(), Some("9780801950773"));
    assert_eq!(m.publisher.as_deref(), Some("Chilton"));
    assert_eq!(m.publish_date.as_deref(), Some("1965"));
    assert_eq!(m.page_count, Some(412));
    assert!(m.categories.is_empty());
    match google_fetch_metadata(&GoogleBooksItem { id: Some("v1".to_string()), volume_info: None }) {
        Err(MetadataError::Parse(msg)) => assert_eq!(msg, "missing volumeInfo"),
        _ => panic!("expected a parse error"),
    }
}

#[test]
fn google_search_keeps_volumes_with_info_and_id() {
    let items = vec![
        GoogleBooksItem { id: None, volume_info: Some(gb_info()) },
        GoogleBooksItem { id: Some("a".to_string()), volume_info: Some(gb_info()) },
        GoogleBooksItem { id: Some("b".to_string()), volume_info: None },
        GoogleBooksItem { id: Some("c".to_string()), volume_info: Some(gb_info()) },
    ];
    let out = google_search_candidates(&items);
    let ids: Vec<&str> = out.iter().map(|(id, _)| id.as_str()).collect();
    assert_eq!(ids, vec!["a", "c"]);
    assert_eq!(out[0].1.title.as_deref(), Some("Dune"));
}

fn ol_doc(key: Option<&str>, title: Option<&str>) -> OpenLibraryDocument {
    OpenLibraryDocument {
        key: key.map(|k| k.to_string()),
        title: title.map(|t| t.to_string()),
        author_name: Some(vec!["Jane Austen".to_string()]),
        cover_i: Some(12),
        isbn: Some(vec!["0141439513".to_string(), "9780141439518".to_string()]),
        publisher: Some(vec!["Penguin".to_string(), "Other".to_string()]),
        first_publish_year: Some(1813),
        number_of_pages_median: Some(279),
        subject: None,
    }
}

#[test]
fn open_library_documents() {
    let m = open_library_document_metadata(&ol_doc(Some("/works/OL1W"), Some("Pride and Prejudice")));
    assert_eq!(m.title.as_deref(), Some("Pride and Prejudice"));
    assert_eq!(m.description, None);
    assert_eq!(m.cover_url.as_deref(), Some("https://covers.openlibrary.org/b/id/12-L.jpg"));
    assert_eq!(m.isbn.as_deref(), Some("9780141439518"));
    assert_eq!(m.publisher.as_deref(), Some("Penguin"));
    assert_eq!(m.publish_date.as_deref(), Some("1813"));
    assert_eq!(m.page_count, Some(279));
    assert_eq!(open_library_isbn(&Some(vec!["123".to_string(), "456".to_string()])).as_deref(), Some("123"));
    assert_eq!(open_library_isbn(&Some(Vec::new())), None);
    assert_eq!(open_library_isbn(&None), None);
    let docs = vec![
        ol_doc(Some("/works/A"), None),
        ol_doc(None, Some("T")),
        ol_doc(Some("/works/B"), Some("T")),
    ];
    let out = open_library_search_candidates(&docs);
    assert_eq!(out.len(), 1);
    assert_eq!(out[0].0, "/works/B");
}

#[test]
fn open_library_work() {
    let w = OpenLibraryWork {
        title: "Emma".to_string(),
        description: Some("A novel.".to_string()),
        covers: Some(vec![5, 6]),
        subjects: Some(vec!["Fiction".to_string()]),
    };
    let m = open_library_work_metadata(&w);
    assert_eq!(m.title.as_deref(), Some("Emma"));
    assert!(m.authors.is_empty());
    assert_eq!(m.description.as_deref(), Some("A novel."));
    assert_eq!(m.cover_url.as_deref(), Some("https://covers.openlibrary.org/b/id/5-L.jpg"));
    assert_eq!(m.categories, vec!["Fiction".to_string()]);
    let bare = OpenLibraryWork { title: "X".to_string(), description: None, covers: Some(Vec::new()), subjects: None };
    assert_eq!(open_library_work_metadata(&bare).cover_url, None);
}
