use ironshelf::scan::{
    extract_dc_element, extract_dc_elements, extract_meta, extract_opf_path, html_decode, read_epub_opf,
    metadata_from_stem, opf_metadata, sort_name, ScanError,
};

const OPF: &str = r#"<package><metadata>
<dc:title>Pride &amp; Prejudice</dc:title>
<dc:creator opf:role="aut">Jane Austen</dc:creator>
<dc:creator>  </dc:creator>
<dc:creator>Someone Else</dc:creator>
<dc:subject>Classics</dc:subject>
<dc:subject>Romance</dc:subject>
<dc:language>en</dc:language>
<meta name="calibre:series" content="Austen Novels"/>
<meta name="calibre:series_index" content="2.0"/>
</metadata></package>"#;

#[test]
fn container_rootfile_path() {
    let xml = r#"<container><rootfiles><rootfile full-path="OEBPS/content.opf" media-type="x"/></rootfiles></container>"#;
    assert_eq!(extract_opf_path(xml), Some("OEBPS/content.opf".to_string()));
    assert_eq!(extract_opf_path("<container/>"), None);
    assert_eq!(extract_opf_path("full-path=\"unterminated"), Some("unterminated".to_string()));
}

#[test]
fn entities_are_decoded() {
    assert_eq!(html_decode("a &amp; b &lt;c&gt; &quot;d&quot; &#39;e&apos;"), "a & b <c> \"d\" 'e'");
    assert_eq!(html_decode("&amp;lt;"), "<");
}

#[test]
fn single_dc_element() {
    assert_eq!(extract_dc_element(OPF, "title"), Some("Pride & Prejudice".to_string()));
    assert_eq!(extract_dc_element(OPF, "creator"), Some("Jane Austen".to_string()));
    assert_eq!(extract_dc_element(OPF, "publisher"), None);
}

#[test]
fn repeated_dc_elements_skip_blank_values() {
    assert_eq!(
        extract_dc_elements(OPF, "creator"),
        vec!["Jane Austen".to_string(), "Someone Else".to_string()]
    );
    assert_eq!(extract_dc_elements(OPF, "subject"), vec!["Classics".to_string(), "Romance".to_string()]);
    assert!(extract_dc_elements(OPF, "rights").is_empty());
}

#[test]
fn meta_content() {
    assert_eq!(extract_meta(OPF, "calibre:series"), Some("Austen Novels".to_string()));
    assert_eq!(extract_meta(OPF, "calibre:series_index"), Some("2.0".to_string()));
    assert_eq!(extract_meta(OPF, "calibre:rating"), None);
    assert_eq!(extract_meta(r#"<meta name="x" content=""/>"#, "x"), None);
}

#[test]
fn whole_opf() {
    let m = opf_metadata(OPF);
    assert_eq!(m.title, "Pride & Prejudice");
    assert_eq!(m.authors, vec!["Jane Austen".to_string(), "Someone Else".to_string()]);
    assert_eq!(m.series_name.as_deref(), Some("Austen Novels"));
    assert_eq!(m.series_index_text.as_deref(), Some("2.0"));
    assert_eq!(m.tags.len(), 2);
    assert_eq!(m.language.as_deref(), Some("en"));
    assert_eq!(m.description, None);
}

#[test]
fn opf_without_title_or_authors() {
    let m = opf_metadata("<package></package>");
    assert_eq!(m.title, "Unknown");
    assert_eq!(m.authors, vec!["Unknown".to_string()]);
}

#[test]
fn sort_names() {
    assert_eq!(sort_name("Jane Austen"), "Austen, Jane");
    assert_eq!(sort_name("  John Ronald Tolkien "), "Tolkien, John Ronald");
    assert_eq!(sort_name("Plato"), "Plato");
}

#[test]
fn stems() {
    let (authors, title) = metadata_from_stem("Jane Austen - Emma", Some("Books"));
    assert_eq!(authors, vec!["Jane Austen".to_string()]);
    assert_eq!(title, "Emma");
    let (authors, title) = metadata_from_stem("Emma", Some("Jane Austen"));
    assert_eq!(authors, vec!["Jane Austen".to_string()]);
    assert_eq!(title, "Emma");
    let (authors, _) = metadata_from_stem("Emma", None);
    assert_eq!(authors, vec!["Unknown".to_string()]);
}

#[test]
fn scan_error_messages() {
    assert_eq!(ScanError::PathNotFound("/x".to_string()).message(), "path not found: /x");
    assert_eq!(ScanError::Io("denied".to_string()).message(), "io error: denied");
}

fn epub(entries: &[(&str, &str)], method: zip::CompressionMethod) -> Vec<u8> {
    let mut writer = zip::ZipWriter::new(std::io::Cursor::new(Vec::new()));
    let options = zip::write::SimpleFileOptions::default().compression_method(method);
    for (name, content) in entries {
        writer.start_file(*name, options).unwrap();
        std::io::Write::write_all(&mut writer, content.as_bytes()).unwrap();
    }
    writer.finish().unwrap().into_inner()
}

#[test]
fn epub_package_documents() {
    let container = r#"<container><rootfiles><rootfile full-path="OEBPS/book.opf"/></rootfiles></container>"#;
    let bytes = epub(
        &[("META-INF/container.xml", container), ("OEBPS/book.opf", OPF)],
        zip::CompressionMethod::Deflated,
    );
    let opf = read_epub_opf(&bytes).ok().unwrap();
    assert_eq!(opf, OPF);
    assert_eq!(opf_metadata(&opf).title, "Pride & Prejudice");
}

#[test]
fn epub_default_package_document() {
    let bytes = epub(
        &[("META-INF/container.xml", "<container/>"), ("content.opf", "<package/>")],
        zip::CompressionMethod::Stored,
    );
    assert_eq!(read_epub_opf(&bytes).ok(), Some("<package/>".to_string()));
}

#[test]
fn broken_epubs_are_io_errors() {
    assert!(matches!(read_epub_opf(b"not a zip archive"), Err(ScanError::Io(_))));
    let no_container = epub(&[("content.opf", "<package/>")], zip::CompressionMethod::Stored);
    match read_epub_opf(&no_container) {
        Err(ScanError::Io(m)) => assert!(!m.is_empty()),
        _ => panic!("expected an I/O error"),
    }
    let missing_opf = epub(&[("META-INF/container.xml", "<container/>")], zip::CompressionMethod::Stored);
    assert!(matches!(read_epub_opf(&missing_opf), Err(ScanError::Io(_))));
}
