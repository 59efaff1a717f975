use ironshelf::files::{calibre_format_path, is_path_within_library};
use ironshelf::files::{
    attachment_disposition, choose_file_format, download_content_type, download_file_name, find_format_ignoring_case,
};
use ironshelf::model::Format;

fn file_format(kind: &str) -> Format {
    Format { kind: kind.to_string(), size: None, file_name: "f".to_string() }
}

#[test]
fn file_content_types() {
    assert_eq!(download_content_type("epub"), "application/epub+zip");
    assert_eq!(download_content_type("PDF"), "application/pdf");
    assert_eq!(download_content_type("Cbz"), "application/x-cbz");
    assert_eq!(download_content_type("mobi"), "application/x-mobipocket-ebook");
    assert_eq!(download_content_type("azw3"), "application/octet-stream");
}

#[test]
fn file_names_for_downloads() {
    assert_eq!(download_file_name("AC/DC: A Life", "EPUB"), "AC_DC: A Life.epub");
    assert_eq!(download_file_name("Plain", "Pdf"), "Plain.pdf");
    assert_eq!(attachment_disposition("Plain.pdf"), "attachment; filename=\"Plain.pdf\"");
}

#[test]
fn file_format_choice() {
    let formats = vec![file_format("PDF"), file_format("EPUB"), file_format("epub")];
    assert_eq!(find_format_ignoring_case(&formats, "Epub"), Some(1));
    assert_eq!(find_format_ignoring_case(&formats, "mobi"), None);
    assert_eq!(choose_file_format(&formats, Some("pdf")), Some(0));
    assert_eq!(choose_file_format(&formats, Some("cbz")), None);
    assert_eq!(choose_file_format(&formats, None), Some(0));
    assert_eq!(choose_file_format(&Vec::new(), None), None);
}

#[test]
fn calibre_format_paths() {
    assert_eq!(
        calibre_format_path("/lib", "Jane Austen/Emma (3)", "Emma - Jane Austen", "EPUB").as_deref(),
        Some("/lib/Jane Austen/Emma (3)/Emma - Jane Austen.epub")
    );
    assert_eq!(calibre_format_path("/lib/", "A/B", "f", "Pdf").as_deref(), Some("/lib/A/B/f.pdf"));
    assert_eq!(calibre_format_path("/lib", "a..b/c", "x..y", "mobi").as_deref(), Some("/lib/a..b/c/x..y.mobi"));
    assert_eq!(calibre_format_path("/lib", "/etc", "passwd", "txt"), None);
    assert_eq!(calibre_format_path("/lib", "../../etc", "passwd", "txt"), None);
    assert_eq!(calibre_format_path("/lib", "A/../../B", "f", "epub"), None);
    assert_eq!(calibre_format_path("/lib", "A", "../f", "epub"), None);
}

#[test]
fn served_paths_stay_in_the_library() {
    assert!(is_path_within_library(Some("/lib"), Some("/lib/A/b.epub")));
    assert!(is_path_within_library(Some("/lib"), Some("/lib")));
    assert!(!is_path_within_library(Some("/lib"), Some("/library/x.epub")));
    assert!(!is_path_within_library(Some("/lib"), Some("/etc/passwd")));
    assert!(is_path_within_library(Some("/"), Some("/etc/passwd")));
    assert!(!is_path_within_library(None, Some("/lib/a")));
    assert!(!is_path_within_library(Some("/lib"), None));
}
