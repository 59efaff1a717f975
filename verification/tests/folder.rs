use ironshelf::folder::{scan_epub, scan_format, scanned_from_opf, scanned_from_path, FolderSource, ScannedBook};
use ironshelf::scan::extract_meta;

fn folder_book(title: &str, authors: &[&str], series: Option<&str>, tags: &[&str]) -> ScannedBook {
    ScannedBook {
        rel_path: format!("{}.epub", title),
        title: title.to_string(),
        authors: authors.iter().map(|a| a.to_string()).collect(),
        series_name: series.map(|s| s.to_string()),
        series_index_text: None,
        tags: tags.iter().map(|t| t.to_string()).collect(),
        language: None,
        description: None,
        file_size: 100,
        format: "EPUB".to_string(),
    }
}

fn folder_library() -> FolderSource {
    FolderSource {
        library_path: "/books".to_string(),
        books: vec![
            folder_book("Dracula", &["Bram Stoker"], Some("Horror Tales"), &["Horror"]),
            folder_book("Emma", &["Jane Austen"], None, &["Classics", "romance"]),
            folder_book("Joint", &["Jane Austen", "Charlotte Bronte"], Some("Novels"), &["Romance"]),
            folder_book("Jane Eyre", &["Charlotte Bronte"], Some("Novels"), &["Classics"]),
            folder_book("Lady Susan", &["Jane Austen"], Some("Austen Shorts"), &[]),
        ],
    }
}

#[test]
fn folder_authors_sorted_by_sort_name_with_first_seen_ids() {
    let authors = folder_library().authors();
    let got: Vec<(i64, String, String, i64, i64)> = authors
        .iter()
        .map(|a| (a.id, a.name.clone(), a.sort_name.clone(), a.book_count, a.series_count))
        .collect();
    assert_eq!(
        got,
        vec![
            (2, "Jane Austen".to_string(), "Austen, Jane".to_string(), 3, 2),
            (3, "Charlotte Bronte".to_string(), "Bronte, Charlotte".to_string(), 2, 1),
            (1, "Bram Stoker".to_string(), "Stoker, Bram".to_string(), 1, 1),
        ]
    );
}

#[test]
fn folder_series_of_an_author() {
    let lib = folder_library();
    let series = lib.series_by_author(2);
    let got: Vec<(i64, String, String, i64)> =
        series.iter().map(|s| (s.id, s.name.clone(), s.sort_name.clone(), s.book_count)).collect();
    assert_eq!(
        got,
        vec![
            (2, "Austen Shorts".to_string(), "Austen Shorts".to_string(), 1),
            (1, "Novels".to_string(), "Novels".to_string(), 1),
        ]
    );
    assert!(lib.series_by_author(0).is_empty());
    assert!(lib.series_by_author(4).is_empty());
}

#[test]
fn folder_genres_counted_and_sorted_ignoring_case() {
    assert_eq!(
        folder_library().genres(),
        vec![
            ("Classics".to_string(), 2),
            ("Horror".to_string(), 1),
            ("romance".to_string(), 1),
            ("Romance".to_string(), 1),
        ]
    );
}

#[test]
fn folder_books_by_genre_ignore_case() {
    let lib = folder_library();
    assert_eq!(lib.books_by_genre("ROMANCE"), vec![1, 2]);
    assert_eq!(lib.books_by_genre("classics"), vec![1, 3]);
    assert!(lib.books_by_genre("Poetry").is_empty());
}

#[test]
fn folder_standalone_and_series_books() {
    let lib = folder_library();
    assert_eq!(lib.standalone_books("Jane Austen"), vec![1]);
    assert!(lib.standalone_books("Bram Stoker").is_empty());
    assert_eq!(lib.books_in_series("Novels"), vec![2, 3]);
    assert!(lib.books_in_series("novels").is_empty());
}

#[test]
fn folder_book_by_id() {
    let lib = folder_library();
    assert_eq!(lib.book(0), Some(0));
    assert_eq!(lib.book(4), Some(4));
    assert_eq!(lib.book(5), None);
    assert_eq!(lib.book(-1), None);
    assert_eq!(lib.cover_path("Emma.epub"), None);
}

#[test]
fn folder_empty_library() {
    let lib = FolderSource { library_path: "/empty".to_string(), books: Vec::new() };
    assert!(lib.authors().is_empty());
    assert!(lib.genres().is_empty());
    assert!(lib.series_by_author(1).is_empty());
}

const FOLDER_OPF: &str = r#"<package><metadata>
<dc:title>Persuasion</dc:title>
<dc:creator>Jane Austen</dc:creator>
<dc:subject>Classics</dc:subject>
<dc:language>en</dc:language>
<dc:description>A late novel.</dc:description>
<meta name="calibre:series" content="Austen Novels"/>
<meta name="calibre:series_index" content="6"/>
</metadata></package>"#;

#[test]
fn folder_book_from_package_document() {
    let b = scanned_from_opf(FOLDER_OPF, "Austen/Persuasion.epub", 2048);
    assert_eq!(b.rel_path, "Austen/Persuasion.epub");
    assert_eq!(b.title, "Persuasion");
    assert_eq!(b.authors, vec!["Jane Austen".to_string()]);
    assert_eq!(b.series_name.as_deref(), Some("Austen Novels"));
    assert_eq!(b.series_index_text.as_deref(), Some("6"));
    assert_eq!(b.tags, vec!["Classics".to_string()]);
    assert_eq!(b.language.as_deref(), Some("en"));
    assert_eq!(b.description.as_deref(), Some("A late novel."));
    assert_eq!(b.file_size, 2048);
    assert_eq!(b.format, "EPUB");
}

#[test]
fn folder_book_from_file_name() {
    let b = scanned_from_path("Jane Austen - Emma", Some("Austen"), "Austen/Jane Austen - Emma.pdf", "PDF", 10);
    assert_eq!(b.authors, vec!["Jane Austen".to_string()]);
    assert_eq!(b.title, "Emma");
    assert_eq!(b.format, "PDF");
    assert_eq!(b.rel_path, "Austen/Jane Austen - Emma.pdf");
    assert!(b.series_name.is_none() && b.tags.is_empty() && b.language.is_none());
    let b = scanned_from_path("Emma", Some("Jane Austen"), "Jane Austen/Emma.mobi", "MOBI", 1);
    assert_eq!(b.authors, vec!["Jane Austen".to_string()]);
    assert_eq!(b.title, "Emma");
}

#[test]
fn meta_elements_at_the_end_of_the_document() {
    assert_eq!(
        extract_meta("<meta name=\"calibre:series\" content=\"Dune\">", "calibre:series").as_deref(),
        Some("Dune")
    );
    assert_eq!(extract_meta("<meta name=\"x\">", "x"), None);
    assert_eq!(extract_meta("<meta name=\"x\" content=\"v\">é", "x").as_deref(), Some("v"));
    assert_eq!(extract_meta("<package/>", "calibre:series"), None);
}

#[test]
fn folder_scan_formats() {
    assert_eq!(scan_format("epub").as_deref(), Some("EPUB"));
    assert_eq!(scan_format("Pdf").as_deref(), Some("PDF"));
    assert_eq!(scan_format("cbz").as_deref(), Some("CBZ"));
    assert_eq!(scan_format("MOBI").as_deref(), Some("MOBI"));
    assert_eq!(scan_format("txt"), None);
    assert_eq!(scan_format(""), None);
}

fn folder_epub(entries: &[(&str, &str)]) -> Vec<u8> {
    let mut writer = zip::ZipWriter::new(std::io::Cursor::new(Vec::new()));
    let options = zip::write::SimpleFileOptions::default().compression_method(zip::CompressionMethod::Stored);
    for (name, content) in entries {
        writer.start_file(*name, options).unwrap();
        std::io::Write::write_all(&mut writer, content.as_bytes()).unwrap();
    }
    writer.finish().unwrap().into_inner()
}

#[test]
fn folder_scan_of_epub_bytes() {
    let bytes = folder_epub(&[("META-INF/container.xml", "<container/>"), ("content.opf", FOLDER_OPF)]);
    let b = scan_epub(&bytes, "whatever", Some("Dir"), "Dir/whatever.epub", 5);
    assert_eq!(b.title, "Persuasion");
    assert_eq!(b.series_name.as_deref(), Some("Austen Novels"));
    assert_eq!(b.format, "EPUB");

    let b = scan_epub(b"not an archive", "Jane Austen - Emma", Some("Dir"), "Dir/x.epub", 7);
    assert_eq!(b.authors, vec!["Jane Austen".to_string()]);
    assert_eq!(b.title, "Emma");
    assert_eq!(b.format, "EPUB");
    assert_eq!(b.file_size, 7);

    let unreadable = folder_epub(&[
        ("META-INF/container.xml", "<container/>"),
        ("content.opf", "<meta name=\"calibre:series\">"),
    ]);
    let b = scan_epub(&unreadable, "x", None, "x.epub", 1);
    assert_eq!(b.series_name, None);
    assert_eq!(b.title, "Unknown");
}
