use ironshelf::books::{order_by_keys, SortKey};
use ironshelf::opds::{
    book_entry, feed_header, format_to_mime, navigation_entry, search_relevance_key, search_term,
    title_matches_term, xml_escape, SearchQuery,
};

#[test]
fn escaping_replaces_markup() {
    assert_eq!(xml_escape("Tom & Jerry <\"quoted\"> 'x'"), "Tom &amp; Jerry &lt;&quot;quoted&quot;&gt; &apos;x&apos;");
    assert_eq!(xml_escape("plain"), "plain");
    let escaped = xml_escape("<a href='x'>&</a>");
    assert!(!escaped.contains('<') && !escaped.contains('>') && !escaped.contains('"') && !escaped.contains('\''));
}

#[test]
fn mime_types() {
    assert_eq!(format_to_mime("epub"), "application/epub+zip");
    assert_eq!(format_to_mime("Azw"), "application/x-mobi8-ebook");
    assert_eq!(format_to_mime("djvu"), "image/vnd.djvu");
    assert_eq!(format_to_mime("docx"), "application/octet-stream");
}

#[test]
fn header_and_entries() {
    let header = feed_header("A & B", "urn:x", "/opds?a=1&b=2", "2024-01-01T00:00:00Z");
    assert!(header.starts_with("<?xml version=\"1.0\" encoding=\"UTF-8\"?>\n<feed"));
    assert!(header.contains("<id>urn:x</id>"));
    assert!(header.contains("<title>A &amp; B</title>"));
    assert!(header.contains("<updated>2024-01-01T00:00:00Z</updated>"));
    assert!(header.contains("href=\"/opds?a=1&amp;b=2\""));

    let nav = navigation_entry("Authors", "urn:authors", "/opds/authors", "By author", "T");
    assert_eq!(
        nav,
        "  <entry>\n    <title>Authors</title>\n    <id>urn:authors</id>\n    <updated>T</updated>\n    <content type=\"text\">By author</content>\n    <link rel=\"subsection\" href=\"/opds/authors\" type=\"application/atom+xml;profile=opds-catalog;kind=navigation\"/>\n  </entry>\n"
    );
}

#[test]
fn book_entries() {
    let formats = vec![("EPUB".to_string(), "application/epub+zip".to_string())];
    let entry = book_entry(42, "Dune", None, true, &formats, "T");
    assert!(entry.contains("<id>urn:ironshelf:book:42</id>"));
    assert!(entry.contains("href=\"/api/v1/books/42/cover\""));
    assert!(entry.contains(
        "<link rel=\"http://opds-spec.org/acquisition\" href=\"/api/v1/books/42/file?format=EPUB\" type=\"application/epub+zip\"/>"
    ));
    assert!(!entry.contains("<content"));
    let with_description = book_entry(-1, "X", Some("a<b"), false, &vec![], "T");
    assert!(with_description.contains("<content type=\"text\">a&lt;b</content>"));
    assert!(with_description.contains("urn:ironshelf:book:-1"));
    assert!(!with_description.contains("cover"));
}

#[test]
fn search_terms_and_ranking() {
    assert_eq!(search_term(&SearchQuery { q: "  DuNe ".to_string() }), Some("dune".to_string()));
    assert_eq!(search_term(&SearchQuery { q: "   ".to_string() }), None);
    assert!(title_matches_term("The Dune Saga", "dune"));
    assert!(!title_matches_term("Emma", "dune"));
    let titles = ["The Dune Saga", "Dune", "Children of Dune"];
    let keys: Vec<SortKey> = titles.iter().map(|t| search_relevance_key(t, "dune")).collect();
    let order = order_by_keys(&keys, false);
    assert_eq!(order, vec![1, 2, 0]);
}
