use ironshelf::books::{text_key, SortKey};
use ironshelf::error::AppError;
use ironshelf::model::Author;
use ironshelf::server::{
    conversion_output_name, conversion_target, converters_response, duplicate_group_key,
    merge_genre_counts, named_tunnel, normalize_manual_url, pick_genre_authors, pick_genre_series, sort_books,
    ConvertRequest,
    ManualUrlRequest, StartTunnelRequest,
};

#[test]
fn tunnels() {
    let named = named_tunnel(&StartTunnelRequest {
        token: Some(" tok ".to_string()),
        hostname: Some("books.example.org".to_string()),
    });
    assert_eq!(named, Some(("tok".to_string(), "books.example.org".to_string())));
    let quick = named_tunnel(&StartTunnelRequest { token: Some("tok".to_string()), hostname: Some("  ".to_string()) });
    assert_eq!(quick, None);
    assert_eq!(named_tunnel(&StartTunnelRequest { token: None, hostname: None }), None);
}

#[test]
fn manual_urls() {
    let n = |u: &str| normalize_manual_url(&ManualUrlRequest { url: u.to_string() });
    assert_eq!(n(" books.example.org/ "), Some("https://books.example.org".to_string()));
    assert_eq!(n("http://x.org//"), Some("http://x.org".to_string()));
    assert_eq!(n(" / "), None);
}

#[test]
fn conversion_targets() {
    assert_eq!(conversion_target(&ConvertRequest { target_format: "mobi".to_string() }).ok(), Some("MOBI".to_string()));
    match conversion_target(&ConvertRequest { target_format: "odt".to_string() }) {
        Err(AppError::BadRequest(m)) => assert_eq!(
            m,
            "Unsupported target format: ODT. Valid formats: EPUB, PDF, MOBI, AZW3, DOCX, TXT, RTF, CBZ"
        ),
        _ => panic!("expected a bad request"),
    }
    assert_eq!(conversion_output_name("Dune", "EPUB"), "Dune.epub");
    assert_eq!(converters_response(true).formats.len(), 8);
    assert!(converters_response(false).formats.is_empty());
}

#[test]
fn duplicate_keys_sort_author_names() {
    let names = vec!["Zed Author".to_string(), " Ann Writer ".to_string()];
    let (key, order) = duplicate_group_key("  The Book ", &names);
    assert_eq!(order, vec![1, 0]);
    assert_eq!(key, "the book||ann writer|zed author");
    let (key2, _) = duplicate_group_key("The Book", &vec![]);
    assert_eq!(key2, "the book||");
}

#[test]
fn genre_counts_merge_by_exact_name() {
    let entries = vec![
        ("Fantasy".to_string(), 3),
        ("SciFi".to_string(), 2),
        ("Fantasy".to_string(), 4),
        ("fantasy".to_string(), 1),
    ];
    let merged = merge_genre_counts(&entries);
    let pairs: Vec<(String, i64)> = merged.into_iter().map(|g| (g.name, g.book_count)).collect();
    assert_eq!(
        pairs,
        vec![("Fantasy".to_string(), 7), ("SciFi".to_string(), 2), ("fantasy".to_string(), 1)]
    );
}

#[test]
fn genre_book_sorting() {
    let keys = vec![text_key("b"), text_key("a"), text_key("c")];
    assert_eq!(sort_books(&keys, &None), vec![1, 0, 2]);
    assert_eq!(sort_books(&keys, &Some("desc".to_string())), vec![2, 0, 1]);
    let ratings = vec![SortKey::Number(Some(5)), SortKey::Number(Some(0)), SortKey::Number(Some(5))];
    assert_eq!(sort_books(&ratings, &Some("desc".to_string())), vec![2, 0, 1]);
}

fn genre_author(id: i64, name: &str) -> Author {
    Author { id, name: name.to_string(), sort_name: name.to_string(), book_count: 1, series_count: 0 }
}

#[test]
fn genre_authors_across_libraries() {
    let mut seen: Vec<i64> = Vec::new();
    let first = vec![genre_author(3, "C"), genre_author(1, "A"), genre_author(2, "B"), genre_author(1, "A again")];
    assert_eq!(pick_genre_authors(&vec![1, 3, 1], &first, &mut seen), vec![0, 1]);
    assert_eq!(seen, vec![3, 1]);
    let second = vec![genre_author(1, "A"), genre_author(4, "D"), genre_author(5, "E")];
    assert_eq!(pick_genre_authors(&vec![1, 4], &second, &mut seen), vec![1]);
    assert_eq!(seen, vec![3, 1, 4]);
    assert!(pick_genre_authors(&Vec::new(), &second, &mut seen).is_empty());
}

#[test]
fn genre_series_still_to_list() {
    assert_eq!(pick_genre_series(&vec![Some(7), None, Some(3), Some(7), Some(9)], &vec![9]), vec![7, 3]);
    assert!(pick_genre_series(&vec![None, None], &Vec::new()).is_empty());
}
