use ironshelf::error::AppError;
use ironshelf::metadata::{
    apply_source, composite_of_ranked, merge_metadata, needs_enrichment, no_cached_metadata,
    normalize_author, search_terms, ApplyMetadataRequest, ApplySource, BookMetadata, MetadataError,
    MetadataSearchQuery,
};

fn meta(title: Option<&str>, authors: &[&str], description: Option<&str>) -> BookMetadata {
    BookMetadata {
        title: title.map(|s| s.to_string()),
        authors: authors.iter().map(|s| s.to_string()).collect(),
        description: description.map(|s| s.to_string()),
        cover_url: None,
        isbn: None,
        publisher: None,
        publish_date: None,
        page_count: None,
        categories: vec![],
    }
}

fn empty() -> BookMetadata {
    meta(None, &[], None)
}

fn request(match_index: Option<usize>, title: Option<&str>) -> ApplyMetadataRequest {
    ApplyMetadataRequest {
        match_index,
        title: title.map(|s| s.to_string()),
        description: None,
        cover_url: None,
        tags: None,
    }
}

#[test]
fn merge_prefers_primary_and_fills_gaps() {
    let mut primary = meta(Some("Dune"), &[], None);
    primary.page_count = Some(412);
    let mut secondary = meta(Some("Other"), &["Frank Herbert"], Some("Sand."));
    secondary.page_count = Some(1);
    secondary.isbn = Some("9780441013593".to_string());
    let out = merge_metadata(&primary, &secondary);
    assert_eq!(out.title.as_deref(), Some("Dune"));
    assert_eq!(out.authors, vec!["Frank Herbert".to_string()]);
    assert_eq!(out.description.as_deref(), Some("Sand."));
    assert_eq!(out.page_count, Some(412));
    assert_eq!(out.isbn.as_deref(), Some("9780441013593"));
}

#[test]
fn merge_with_empty_is_identity() {
    let m = meta(Some("T"), &["A", "B"], Some("D"));
    let out = merge_metadata(&m, &empty());
    assert_eq!(out.title, m.title);
    assert_eq!(out.authors, m.authors);
    let out2 = merge_metadata(&empty(), &m);
    assert_eq!(out2.title, m.title);
    assert_eq!(out2.description, m.description);
}

#[test]
fn merge_is_idempotent() {
    let m = meta(Some("T"), &["A"], None);
    let out = merge_metadata(&m, &m);
    assert_eq!(out.title, m.title);
    assert_eq!(out.authors, m.authors);
    assert_eq!(out.description, None);
}

#[test]
fn merge_is_associative_on_example() {
    let a = meta(None, &["A"], None);
    let b = meta(Some("B"), &[], None);
    let c = meta(Some("C"), &["C"], Some("c"));
    let left = merge_metadata(&merge_metadata(&a, &b), &c);
    let right = merge_metadata(&a, &merge_metadata(&b, &c));
    assert_eq!(left.title, right.title);
    assert_eq!(left.authors, right.authors);
    assert_eq!(left.description, right.description);
    assert_eq!(left.title.as_deref(), Some("B"));
}

#[test]
fn composite_takes_first_title_and_fills_in_order() {
    let ranked = vec![
        meta(None, &[], None),
        meta(Some("Second"), &[], Some("second desc")),
        meta(Some("Third"), &["Author"], Some("third desc")),
    ];
    let out = composite_of_ranked(&ranked).unwrap();
    assert_eq!(out.title.as_deref(), Some("Second"));
    assert_eq!(out.description.as_deref(), Some("second desc"));
    assert_eq!(out.authors, vec!["Author".to_string()]);
    assert!(composite_of_ranked(&vec![]).is_none());
}

#[test]
fn authors_are_turned_around() {
    assert_eq!(normalize_author("Herbert, Frank"), "Frank Herbert");
    assert_eq!(normalize_author("  Plato  "), "Plato");
    assert_eq!(normalize_author("Herbert, "), "Herbert,");
}

#[test]
fn search_terms_fall_back_to_book() {
    let q = MetadataSearchQuery { title: Some("  ".to_string()), author: None };
    let (t, a) = search_terms(&q, "Dune".to_string(), Some("Herbert, Frank".to_string()));
    assert_eq!(t, "Dune");
    assert_eq!(a.as_deref(), Some("Frank Herbert"));
    let q2 = MetadataSearchQuery { title: Some(" Emma ".to_string()), author: Some("".to_string()) };
    let (t2, a2) = search_terms(&q2, "Dune".to_string(), Some("X".to_string()));
    assert_eq!(t2, "Emma");
    assert_eq!(a2, None);
}

#[test]
fn apply_source_choices() {
    assert!(matches!(apply_source(&request(Some(7), Some("T")), 0), Ok(ApplySource::Direct)));
    assert!(matches!(apply_source(&request(Some(1), None), 3), Ok(ApplySource::Cached(1))));
    assert!(matches!(apply_source(&request(None, None), 3), Ok(ApplySource::Composite)));
    match apply_source(&request(Some(5), None), 2) {
        Err(AppError::BadRequest(m)) => {
            assert_eq!(m, "match_index 5 is out of range (have 2 cached entries)")
        }
        _ => panic!("expected a bad request"),
    }
    match no_cached_metadata() {
        AppError::BadRequest(m) => assert_eq!(m, "no cached metadata to apply; run search first"),
        _ => panic!("expected a bad request"),
    }
}

#[test]
fn enrichment_need() {
    assert!(needs_enrichment(&None));
    assert!(needs_enrichment(&Some(String::new())));
    assert!(!needs_enrichment(&Some("x".to_string())));
}

#[test]
fn provider_error_messages() {
    assert_eq!(MetadataError::NoResults.message(), "provider returned no results");
    assert_eq!(MetadataError::Http("timeout".to_string()).message(), "HTTP request failed: timeout");
}

#[test]
fn bulk_scan_steps() {
    match ironshelf::metadata::bulk_scan_step(7, "Emma", 0, None) {
        ironshelf::metadata::BulkScanStep::NoResults(e) => {
            assert_eq!((e.book_id, e.title.as_str(), e.error.as_str()), (7, "Emma", "no results from any provider"))
        }
        _ => panic!("expected no results"),
    }
    assert!(matches!(ironshelf::metadata::bulk_scan_step(7, "Emma", 2, None), ironshelf::metadata::BulkScanStep::Skip));
    assert!(matches!(
        ironshelf::metadata::bulk_scan_step(7, "Emma", 2, Some(meta(Some("Emma"), &[], None))),
        ironshelf::metadata::BulkScanStep::Skip
    ));
    let mut with_tags = meta(Some("Emma"), &[], Some("A novel."));
    with_tags.categories = vec!["Fiction".to_string()];
    with_tags.cover_url = Some("https://c".to_string());
    match ironshelf::metadata::bulk_scan_step(7, "Emma", 1, Some(with_tags)) {
        ironshelf::metadata::BulkScanStep::Apply { description, cover_url, tags } => {
            assert_eq!(description, "A novel.");
            assert_eq!(cover_url.as_deref(), Some("https://c"));
            assert_eq!(tags, Some(vec!["Fiction".to_string()]));
        }
        _ => panic!("expected apply"),
    }
    match ironshelf::metadata::bulk_scan_step(7, "Emma", 1, Some(meta(Some("Emma"), &[], Some("x")))) {
        ironshelf::metadata::BulkScanStep::Apply { tags, .. } => assert_eq!(tags, None),
        _ => panic!("expected apply"),
    }
    let mut summary = ironshelf::metadata::BulkScanResponse {
        library_id: "lib".to_string(),
        books_missing_metadata: 2,
        books_enriched: 0,
        errors: Vec::new(),
    };
    ironshelf::metadata::note_bulk_override(&mut summary, 1, "A", Ok(()));
    ironshelf::metadata::note_bulk_override(&mut summary, 2, "B", Err("disk full".to_string()));
    assert_eq!(summary.books_enriched, 1);
    assert_eq!(summary.errors.len(), 1);
    assert_eq!((summary.errors[0].book_id, summary.errors[0].error.as_str()), (2, "disk full"));
}

#[test]
fn override_tags_as_json() {
    assert_eq!(ironshelf::metadata::categories_tags_json(&Vec::new()), None);
    assert_eq!(
        ironshelf::metadata::categories_tags_json(&vec!["Fiction".to_string(), "a\"b".to_string()]).as_deref(),
        Some("[\"Fiction\",\"a\\\"b\"]")
    );
    assert_eq!(ironshelf::metadata::direct_tags_json(&Some(Vec::new())).as_deref(), Some("[]"));
    assert_eq!(ironshelf::metadata::direct_tags_json(&None), None);
}
