use ironshelf::acquisition::{
    deduplicate_and_sort, direct_download_file_name, extract_info_hash_from_magnet,
    guess_author_from_title, is_ebook_file, numbered_file_name, qbittorrent_state, sha256_short,
    transmission_state, deluge_state, DownloadState, SearchResult, AcquisitionError,
};

fn result(url: &str, seeders: Option<i32>) -> SearchResult {
    SearchResult {
        title: url.to_string(),
        author_guess: None,
        size_bytes: None,
        download_url: url.to_string(),
        magnet_url: None,
        info_hash: None,
        seeders,
        leechers: None,
        category: None,
        indexer_name: "idx".to_string(),
        published_at: None,
    }
}

#[test]
fn magnet_hash_is_extracted_and_lowercased() {
    let magnet = "magnet:?xt=urn:btih:ABCDEF0123&dn=Some+Book&tr=udp://x";
    assert_eq!(extract_info_hash_from_magnet(magnet), Some("abcdef0123".to_string()));
}

#[test]
fn magnet_hash_in_later_parameter() {
    let magnet = "magnet:?dn=Book&xt=urn:btih:FFEE";
    assert_eq!(extract_info_hash_from_magnet(magnet), Some("ffee".to_string()));
}

#[test]
fn magnet_without_hash_gives_none() {
    assert_eq!(extract_info_hash_from_magnet("magnet:?dn=Book&tr=x"), None);
    assert_eq!(extract_info_hash_from_magnet(""), None);
}

#[test]
fn sha256_short_is_first_twenty_bytes_in_hex() {
    assert_eq!(sha256_short("abc"), "ba7816bf8f01cfea414140de5dae2223b00361a3");
    assert_eq!(sha256_short("abc").len(), 40);
}

#[test]
fn guess_author_dash_pattern() {
    assert_eq!(
        guess_author_from_title("Brandon Sanderson - Mistborn (EPUB)"),
        Some("Brandon Sanderson".to_string())
    );
}

#[test]
fn guess_author_dash_needs_a_space_in_candidate() {
    assert_eq!(guess_author_from_title("Tolkien - The Hobbit"), None);
}

#[test]
fn guess_author_by_pattern() {
    assert_eq!(
        guess_author_from_title("The Hobbit by J.R.R. Tolkien (EPUB)"),
        Some("J.R.R. Tolkien".to_string())
    );
    assert_eq!(
        guess_author_from_title("Dune BY Frank Herbert, 1965"),
        Some("Frank Herbert".to_string())
    );
}

#[test]
fn guess_author_nothing_found() {
    assert_eq!(guess_author_from_title("Just A Title"), None);
}

#[test]
fn ebook_extensions_are_case_insensitive() {
    assert!(is_ebook_file(Some("EPUB")));
    assert!(is_ebook_file(Some("djvu")));
    assert!(!is_ebook_file(Some("txt")));
    assert!(!is_ebook_file(None));
}

#[test]
fn numbered_names() {
    assert_eq!(numbered_file_name("book", "epub", 3), "book (3).epub");
    assert_eq!(numbered_file_name("book", "", 12), "book (12)");
}

#[test]
fn direct_download_names() {
    assert_eq!(direct_download_file_name("https://x.org/files/My%20Book.epub?token=1"), "My Book.epub");
    assert_eq!(
        direct_download_file_name("https://x.org/files/"),
        format!("{}.download", sha256_short("https://x.org/files/"))
    );
}

#[test]
fn client_states() {
    assert!(matches!(qbittorrent_state("stalledDL", false), DownloadState::Downloading));
    assert!(matches!(qbittorrent_state("uploading", true), DownloadState::Seeding));
    assert!(matches!(transmission_state(4, false), DownloadState::Downloading));
    assert!(matches!(deluge_state("Error", false), DownloadState::Failed));
}

#[test]
fn dedup_keeps_first_of_each_url_and_sorts_by_seeders() {
    let mut results = vec![
        result("a", Some(5)),
        result("b", None),
        result("a", Some(50)),
        result("c", Some(10)),
        result("d", Some(5)),
    ];
    deduplicate_and_sort(&mut results);
    let urls: Vec<&str> = results.iter().map(|r| r.download_url.as_str()).collect();
    assert_eq!(urls, vec!["c", "a", "d", "b"]);
    assert_eq!(results[1].seeders, Some(5));
}

#[test]
fn acquisition_error_messages() {
    assert_eq!(AcquisitionError::NoIndexers.message(), "no enabled indexers configured");
    assert_eq!(
        AcquisitionError::XmlParse("bad".to_string()).message(),
        "XML parse error: bad"
    );
}

#[test]
fn direct_download_names_are_percent_decoded() {
    assert_eq!(direct_download_file_name("https://x.org/a%2Bb+c%zz%4.epub"), "a+b+c%zz%4.epub");
    assert_eq!(direct_download_file_name("https://x.org/%C3%A9t%C3%A9.pdf"), "été.pdf");
    assert_eq!(direct_download_file_name("https://x.org/%41%42%43"), "ABC");
}
