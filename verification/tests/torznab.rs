use ironshelf::acquisition::AcquisitionError;
use ironshelf::torznab::{parse_torznab_events, parse_torznab_response, XmlEvent};

const FEED: &str = r#"<?xml version="1.0" encoding="UTF-8"?>
<rss version="2.0" xmlns:torznab="http://torznab.com/schemas/2015/feed">
<channel>
<title>Indexer</title>
<item>
  <title>Frank Herbert - Dune (EPUB)</title>
  <link>https://example.org/dl/1</link>
  <pubDate>Mon, 01 Jan 2024 00:00:00 +0000</pubDate>
  <category>Books</category>
  <enclosure url="https://example.org/enclosure/1" length="12345" type="application/x-bittorrent"/>
  <torznab:attr name="seeders" value="42"/>
  <torznab:attr name="peers" value="7"/>
  <torznab:attr name="infohash" value="ABCDEF"/>
  <torznab:attr name="magneturl" value="magnet:?xt=urn:btih:ABCDEF"/>
</item>
<item>
  <title>No Link &amp; Here</title>
</item>
<item>
  <title>The Hobbit by J.R.R. Tolkien</title>
  <enclosure url="https://example.org/enclosure/3" length="99"/>
  <torznab:attr name="size" value="500"/>
</item>
</channel>
</rss>"#;

#[test]
fn feed_items_become_results() {
    let results = parse_torznab_response(FEED, "MyIndexer").ok().unwrap();
    assert_eq!(results.len(), 2);
    let first = &results[0];
    assert_eq!(first.title, "Frank Herbert - Dune (EPUB)");
    assert_eq!(first.download_url, "https://example.org/dl/1");
    assert_eq!(first.size_bytes, Some(12345));
    assert_eq!(first.seeders, Some(42));
    assert_eq!(first.leechers, Some(7));
    assert_eq!(first.info_hash.as_deref(), Some("ABCDEF"));
    assert_eq!(first.magnet_url.as_deref(), Some("magnet:?xt=urn:btih:ABCDEF"));
    assert_eq!(first.category.as_deref(), Some("Books"));
    assert_eq!(first.published_at.as_deref(), Some("Mon, 01 Jan 2024 00:00:00 +0000"));
    assert_eq!(first.author_guess.as_deref(), Some("Frank Herbert"));
    assert_eq!(first.indexer_name, "MyIndexer");
    let second = &results[1];
    assert_eq!(second.download_url, "https://example.org/enclosure/3");
    assert_eq!(second.size_bytes, Some(500));
    assert_eq!(second.seeders, None);
    assert_eq!(second.author_guess.as_deref(), Some("J.R.R. Tolkien"));
}

#[test]
fn empty_feed_has_no_results() {
    let results = parse_torznab_response("<rss><channel></channel></rss>", "x").ok().unwrap();
    assert!(results.is_empty());
}

#[test]
fn malformed_feed_is_an_xml_error() {
    match parse_torznab_response("<rss><item><title>x</wrong></item></rss>", "x") {
        Err(AcquisitionError::XmlParse(_)) => {}
        _ => panic!("expected an XML parse error"),
    }
}

#[test]
fn events_drive_the_parser() {
    let events = vec![
        XmlEvent::Start("item".to_string()),
        XmlEvent::Start("title".to_string()),
        XmlEvent::Text("A Book".to_string()),
        XmlEvent::End("title".to_string()),
        XmlEvent::Start("link".to_string()),
        XmlEvent::Text("http://a".to_string()),
        XmlEvent::End("link".to_string()),
        XmlEvent::Empty(
            "newznab:attr".to_string(),
            vec![("name".to_string(), "seeders".to_string()), ("value".to_string(), "x".to_string())],
        ),
        XmlEvent::End("item".to_string()),
        XmlEvent::Eof,
    ];
    let results = parse_torznab_events(&events, "idx");
    assert_eq!(results.len(), 1);
    assert_eq!(results[0].title, "A Book");
    assert_eq!(results[0].download_url, "http://a");
    assert_eq!(results[0].seeders, None);
    assert_eq!(results[0].author_guess, None);
}
