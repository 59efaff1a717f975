use ironshelf::books::{
    book_sort_field, book_title_matches, has_value_ignoring_case, order_by_keys, status_filter,
    status_keeps, text_key, BookSortField, SortKey, StatusFilter,
};

#[test]
fn title_search_is_case_insensitive() {
    assert!(book_title_matches("The Hobbit", "hobb"));
    assert!(!book_title_matches("The Hobbit", "ring"));
}

#[test]
fn values_match_ignoring_case() {
    let tags = vec!["Fantasy".to_string(), "Classic".to_string()];
    assert!(has_value_ignoring_case(&tags, "fantasy"));
    assert!(!has_value_ignoring_case(&tags, "horror"));
}

#[test]
fn ascending_order_is_stable() {
    let keys = vec![text_key("b"), text_key("A"), text_key("B"), text_key("a")];
    assert_eq!(order_by_keys(&keys, false), vec![1, 3, 0, 2]);
}

#[test]
fn descending_order_reverses_the_stable_ascending_one() {
    let keys = vec![text_key("b"), text_key("A"), text_key("B"), text_key("a")];
    assert_eq!(order_by_keys(&keys, true), vec![2, 0, 3, 1]);
}

#[test]
fn numbers_absent_first() {
    let keys = vec![
        SortKey::Number(Some(3)),
        SortKey::Number(None),
        SortKey::Number(Some(-1)),
        SortKey::Number(Some(3)),
    ];
    assert_eq!(order_by_keys(&keys, false), vec![1, 2, 0, 3]);
    assert_eq!(order_by_keys(&vec![], false), Vec::<usize>::new());
}

#[test]
fn status_filters() {
    assert!(matches!(status_filter(Some("FINISHED")), StatusFilter::Finished));
    assert!(matches!(status_filter(None), StatusFilter::All));
    assert!(status_keeps(StatusFilter::All, false, false));
    assert!(status_keeps(StatusFilter::Finished, true, false));
    assert!(!status_keeps(StatusFilter::Finished, false, true));
    assert!(matches!(book_sort_field(Some("rating")), BookSortField::Rating));
    assert!(matches!(book_sort_field(Some("author")), BookSortField::SortTitle));
    assert!(matches!(book_sort_field(None), BookSortField::SortTitle));
}

fn listed(title: &str, tags: &[&str], completed: bool) -> ironshelf::books::ListedBook {
    ironshelf::books::ListedBook {
        title: title.to_string(),
        tags: tags.iter().map(|t| t.to_string()).collect(),
        languages: vec!["en".to_string()],
        completed,
        in_progress: false,
        sort_key: ironshelf::books::text_key(title),
    }
}

fn listing_query(q: Option<&str>, dir: Option<&str>, page: Option<u32>, per_page: Option<u32>) -> ironshelf::books::ListBooksQuery {
    ironshelf::books::ListBooksQuery {
        page,
        per_page,
        sort: Some("title".to_string()),
        dir: dir.map(|d| d.to_string()),
        q: q.map(|s| s.to_string()),
        tag: None,
        language: None,
        status: None,
    }
}

#[test]
fn listing_pages_filter_sort_and_cut() {
    let books = vec![listed("b Dune", &["SF"], true), listed("a Emma", &[], false), listed("c Dracula", &["horror"], false)];
    let all = ironshelf::books::list_page(&books, &listing_query(None, None, None, None));
    assert_eq!(all.items, vec![1, 0, 2]);
    assert_eq!(all.total, 3);
    let d = ironshelf::books::list_page(&books, &listing_query(Some("D"), None, None, None));
    assert_eq!(d.items, vec![0, 2]);
    let desc = ironshelf::books::list_page(&books, &listing_query(Some("d"), Some("desc"), None, None));
    assert_eq!(desc.items, vec![2, 0]);
    let second = ironshelf::books::list_page(&books, &listing_query(Some("d"), Some("desc"), Some(2), Some(1)));
    assert_eq!(second.items, vec![0]);
    assert_eq!(second.total, 2);
    assert_eq!((second.page, second.per_page), (2, 1));
    let mut finished = listing_query(None, None, None, None);
    finished.status = Some("Finished".to_string());
    finished.tag = Some("sf".to_string());
    assert_eq!(ironshelf::books::list_page(&books, &finished).items, vec![0]);
    finished.language = Some("FR".to_string());
    assert!(ironshelf::books::list_page(&books, &finished).items.is_empty());
}

#[test]
fn library_listing_respects_grants() {
    let books = vec![listed("b Dune", &["SF"], true), listed("a Emma", &[], false)];
    let q = listing_query(None, None, None, None);
    match ironshelf::books::list_library_page(&Some(vec!["other".to_string()]), "lib1", &books, &q) {
        Err(ironshelf::error::AppError::NotFound(m)) => assert_eq!(m, "library not found"),
        _ => panic!("expected not found"),
    }
    assert!(ironshelf::books::list_library_page(&Some(Vec::new()), "lib1", &books, &q).is_err());
    let granted = ironshelf::books::list_library_page(&Some(vec!["lib1".to_string()]), "lib1", &books, &q).ok().unwrap();
    assert_eq!(granted.items, vec![1, 0]);
    let open = ironshelf::books::list_library_page(&None, "lib1", &books, &q).ok().unwrap();
    assert_eq!(open.total, 2);
}
