//! OPDS catalog feeds: escaping, MIME types and the Atom elements that the
//! feeds are made of, and how a catalog search matches and orders books.

use vstd::prelude::*;
use crate::books::SortKey;
use crate::text::{
    chars_of, decimal, decimal_i64, extend_chars, extend_str, find, find_chars, lowercase,
    starts_with, str_eq, string_from_str, string_of, to_lowercase, to_uppercase, trim, trim_str,
    uppercase,
};

verus! {

/// The content type of OPDS catalog feeds.
pub open spec fn opds_content_type() -> Seq<char> {
    "application/atom+xml;profile=opds-catalog;charset=utf-8"@
}

/// The content type of navigation links.
pub open spec fn opds_navigation_type() -> Seq<char> {
    "application/atom+xml;profile=opds-catalog;kind=navigation"@
}

/// The escape of one character: `&`, `<`, `>`, `"` and `'` become entities.
pub open spec fn escape_char(c: char) -> Seq<char> {
    if c == '&' {
        "&amp;"@
    } else if c == '<' {
        "&lt;"@
    } else if c == '>' {
        "&gt;"@
    } else if c == '"' {
        "&quot;"@
    } else if c == '\'' {
        "&apos;"@
    } else {
        seq![c]
    }
}

/// A text escaped for XML, character by character.
pub open spec fn xml_escaped(s: Seq<char>) -> Seq<char>
    decreases s.len(),
{
    if s.len() == 0 {
        seq![]
    } else {
        xml_escaped(s.drop_last()) + escape_char(s.last())
    }
}

/// XML-escape a string for safe embedding in XML content.
pub fn xml_escape(input: &str) -> (out: String)
    ensures
        out@ == xml_escaped(input@),
{
    let s = chars_of(input);
    let mut out: Vec<char> = Vec::new();
    let mut i: usize = 0;
    while i < s.len()
        invariant
            i <= s.len(),
            out@ == xml_escaped(s@.take(i as int)),
        decreases s.len() - i,
    {
        assert(s@.take(i + 1).drop_last() =~= s@.take(i as int));
        let c = s[i];
        if c == '&' {
            extend_str(&mut out, "&amp;");
        } else if c == '<' {
            extend_str(&mut out, "&lt;");
        } else if c == '>' {
            extend_str(&mut out, "&gt;");
        } else if c == '"' {
            extend_str(&mut out, "&quot;");
        } else if c == '\'' {
            extend_str(&mut out, "&apos;");
        } else {
            out.push(c);
        }
        i = i + 1;
    }
    assert(s@.take(s.len() as int) =~= s@);
    string_of(&out)
}

/// Escaped text holds none of `<`, `>`, `"` and `'`.
pub proof fn lemma_escaped_has_no_markup(s: Seq<char>)
    ensures
        forall|i: int|
            0 <= i < xml_escaped(s).len() ==> {
                let c = #[trigger] xml_escaped(s)[i];
                c != '<' && c != '>' && c != '"' && c != '\''
            },
    decreases s.len(),
{
    if s.len() > 0 {
        lemma_escaped_has_no_markup(s.drop_last());
        reveal_strlit("&amp;");
        reveal_strlit("&lt;");
        reveal_strlit("&gt;");
        reveal_strlit("&quot;");
        reveal_strlit("&apos;");
        let p = xml_escaped(s.drop_last());
        let e = escape_char(s.last());
        assert forall|i: int| 0 <= i < xml_escaped(s).len() implies {
            let c = #[trigger] xml_escaped(s)[i];
            c != '<' && c != '>' && c != '"' && c != '\''
        } by {
            if i < p.len() {
                assert(xml_escaped(s)[i] == p[i]);
            } else {
                assert(xml_escaped(s)[i] == e[i - p.len()]);
            }
        }
    }
}

/// The MIME type of a book format (any letter case).
pub open spec fn mime_of(format_upper: Seq<char>) -> Seq<char> {
    if format_upper == "EPUB"@ {
        "application/epub+zip"@
    } else if format_upper == "PDF"@ {
        "application/pdf"@
    } else if format_upper == "MOBI"@ {
        "application/x-mobipocket-ebook"@
    } else if format_upper == "AZW3"@ || format_upper == "AZW"@ {
        "application/x-mobi8-ebook"@
    } else if format_upper == "CBZ"@ {
        "application/x-cbz"@
    } else if format_upper == "CBR"@ {
        "application/x-cbr"@
    } else if format_upper == "FB2"@ {
        "application/x-fictionbook+xml"@
    } else if format_upper == "TXT"@ {
        "text/plain"@
    } else if format_upper == "RTF"@ {
        "application/rtf"@
    } else if format_upper == "DJVU"@ {
        "image/vnd.djvu"@
    } else {
        "application/octet-stream"@
    }
}

/// Map a format kind to a MIME type.
pub fn format_to_mime(format_kind: &str) -> (out: String)
    ensures
        out@ == mime_of(uppercase(format_kind@)),
{
    let u = to_uppercase(format_kind);
    let f = u.as_str();
    if str_eq(f, "EPUB") {
        string_from_str("application/epub+zip")
    } else if str_eq(f, "PDF") {
        string_from_str("application/pdf")
    } else if str_eq(f, "MOBI") {
        string_from_str("application/x-mobipocket-ebook")
    } else if str_eq(f, "AZW3") || str_eq(f, "AZW") {
        string_from_str("application/x-mobi8-ebook")
    } else if str_eq(f, "CBZ") {
        string_from_str("application/x-cbz")
    } else if str_eq(f, "CBR") {
        string_from_str("application/x-cbr")
    } else if str_eq(f, "FB2") {
        string_from_str("application/x-fictionbook+xml")
    } else if str_eq(f, "TXT") {
        string_from_str("text/plain")
    } else if str_eq(f, "RTF") {
        string_from_str("application/rtf")
    } else if str_eq(f, "DJVU") {
        string_from_str("image/vnd.djvu")
    } else {
        string_from_str("application/octet-stream")
    }
}

/// The opening of a feed, up to its links (the feed is closed by `</feed>`).
pub open spec fn feed_header_text(title: Seq<char>, feed_id: Seq<char>, self_href: Seq<char>, updated: Seq<
    char,
>) -> Seq<char> {
    "<?xml version=\"1.0\" encoding=\"UTF-8\"?>\n<feed xmlns=\"http://www.w3.org/2005/Atom\"\n      xmlns:opds=\"http://opds-spec.org/2010/catalog\"\n      xmlns:dc=\"http://purl.org/dc/terms/\">\n  <id>"@
        + xml_escaped(feed_id) + "</id>\n  <title>"@ + xml_escaped(title) + "</title>\n  <updated>"@
        + updated + "</updated>\n  <link rel=\"self\" href=\""@ + xml_escaped(self_href)
        + "\" type=\""@ + opds_content_type() + "\"/>\n  <link rel=\"start\" href=\"/opds\" type=\""@
        + opds_content_type() + "\"/>\n  <link rel=\"search\" href=\"/opds/search?q={searchTerms}\" type=\""@
        + opds_content_type() + "\"/>\n"@
}

/// Build the Atom feed header; `updated` is the current time (RFC 3339).
pub fn feed_header(title: &str, feed_id: &str, self_href: &str, updated: &str) -> (out: String)
    ensures
        out@ == feed_header_text(title@, feed_id@, self_href@, updated@),
{
    let ct = "application/atom+xml;profile=opds-catalog;charset=utf-8";
    let mut v = chars_of(
        "<?xml version=\"1.0\" encoding=\"UTF-8\"?>\n<feed xmlns=\"http://www.w3.org/2005/Atom\"\n      xmlns:opds=\"http://opds-spec.org/2010/catalog\"\n      xmlns:dc=\"http://purl.org/dc/terms/\">\n  <id>",
    );
    extend_str(&mut v, xml_escape(feed_id).as_str());
    extend_str(&mut v, "</id>\n  <title>");
    extend_str(&mut v, xml_escape(title).as_str());
    extend_str(&mut v, "</title>\n  <updated>");
    extend_str(&mut v, updated);
    extend_str(&mut v, "</updated>\n  <link rel=\"self\" href=\"");
    extend_str(&mut v, xml_escape(self_href).as_str());
    extend_str(&mut v, "\" type=\"");
    extend_str(&mut v, ct);
    extend_str(&mut v, "\"/>\n  <link rel=\"start\" href=\"/opds\" type=\"");
    extend_str(&mut v, ct);
    extend_str(&mut v, "\"/>\n  <link rel=\"search\" href=\"/opds/search?q={searchTerms}\" type=\"");
    extend_str(&mut v, ct);
    extend_str(&mut v, "\"/>\n");
    string_of(&v)
}

/// A navigation entry (a link to a sub-feed).
pub open spec fn navigation_entry_text(title: Seq<char>, entry_id: Seq<char>, href: Seq<char>, content: Seq<
    char,
>, updated: Seq<char>) -> Seq<char> {
    "  <entry>\n    <title>"@ + xml_escaped(title) + "</title>\n    <id>"@ + xml_escaped(entry_id)
        + "</id>\n    <updated>"@ + updated + "</updated>\n    <content type=\"text\">"@
        + xml_escaped(content) + "</content>\n    <link rel=\"subsection\" href=\""@ + xml_escaped(href)
        + "\" type=\""@ + opds_navigation_type() + "\"/>\n  </entry>\n"@
}

/// Build a navigation entry; `updated` is the current time (RFC 3339).
pub fn navigation_entry(title: &str, entry_id: &str, href: &str, content: &str, updated: &str) -> (out:
    String)
    ensures
        out@ == navigation_entry_text(title@, entry_id@, href@, content@, updated@),
{
    let mut v = chars_of("  <entry>\n    <title>");
    extend_str(&mut v, xml_escape(title).as_str());
    extend_str(&mut v, "</title>\n    <id>");
    extend_str(&mut v, xml_escape(entry_id).as_str());
    extend_str(&mut v, "</id>\n    <updated>");
    extend_str(&mut v, updated);
    extend_str(&mut v, "</updated>\n    <content type=\"text\">");
    extend_str(&mut v, xml_escape(content).as_str());
    extend_str(&mut v, "</content>\n    <link rel=\"subsection\" href=\"");
    extend_str(&mut v, xml_escape(href).as_str());
    extend_str(&mut v, "\" type=\"");
    extend_str(&mut v, "application/atom+xml;profile=opds-catalog;kind=navigation");
    extend_str(&mut v, "\"/>\n  </entry>\n");
    string_of(&v)
}

/// The acquisition links of a book, one per (format, MIME type), from the
/// `n`-th on.
pub open spec fn acquisition_links(book_id: i64, formats: Seq<(String, String)>, n: nat) -> Seq<char>
    decreases n,
{
    if n == 0 || n > formats.len() {
        seq![]
    } else {
        acquisition_links(book_id, formats, (n - 1) as nat)
            + "    <link rel=\"http://opds-spec.org/acquisition\" href=\"/api/v1/books/"@
            + decimal(book_id as int) + "/file?format="@ + xml_escaped(formats[n - 1].0@)
            + "\" type=\""@ + xml_escaped(formats[n - 1].1@) + "\"/>\n"@
    }
}

/// An acquisition entry for a book.
pub open spec fn book_entry_text(
    book_id: i64,
    title: Seq<char>,
    description: Option<Seq<char>>,
    has_cover: bool,
    formats: Seq<(String, String)>,
    updated: Seq<char>,
) -> Seq<char> {
    "  <entry>\n    <title>"@ + xml_escaped(title) + "</title>\n    <id>"@ + xml_escaped(
        "urn:ironshelf:book:"@ + decimal(book_id as int),
    ) + "</id>\n    <updated>"@ + updated + "</updated>\n"@ + (match description {
        Some(d) => "    <content type=\"text\">"@ + xml_escaped(d) + "</content>\n"@,
        None => seq![],
    }) + (if has_cover {
        "    <link rel=\"http://opds-spec.org/image\" href=\"/api/v1/books/"@ + decimal(
            book_id as int,
        ) + "/cover\" type=\"image/jpeg\"/>\n"@
            + "    <link rel=\"http://opds-spec.org/image/thumbnail\" href=\"/api/v1/books/"@
            + decimal(book_id as int) + "/cover\" type=\"image/jpeg\"/>\n"@
    } else {
        seq![]
    }) + acquisition_links(book_id, formats, formats.len()) + "  </entry>\n"@
}

/// Build an acquisition entry for a book; `formats` are (kind, MIME type)
/// pairs and `updated` is the current time (RFC 3339).
pub fn book_entry(
    book_id: i64,
    title: &str,
    description: Option<&str>,
    has_cover: bool,
    formats: &Vec<(String, String)>,
    updated: &str,
) -> (out: String)
    ensures
        out@ == book_entry_text(
            book_id,
            title@,
            match description {
                Some(d) => Some(d@),
                None => None,
            },
            has_cover,
            formats@,
            updated@,
        ),
{
    let id = decimal_i64(book_id);
    let mut entry_id = chars_of("urn:ironshelf:book:");
    extend_chars(&mut entry_id, &id);
    let mut v = chars_of("  <entry>\n    <title>");
    extend_str(&mut v, xml_escape(title).as_str());
    extend_str(&mut v, "</title>\n    <id>");
    extend_str(&mut v, xml_escape(string_of(&entry_id).as_str()).as_str());
    extend_str(&mut v, "</id>\n    <updated>");
    extend_str(&mut v, updated);
    extend_str(&mut v, "</updated>\n");
    let ghost head = v@;
    match description {
        Some(d) => {
            extend_str(&mut v, "    <content type=\"text\">");
            extend_str(&mut v, xml_escape(d).as_str());
            extend_str(&mut v, "</content>\n");
        },
        None => {},
    }
    let ghost with_description = v@;
    if has_cover {
        extend_str(&mut v, "    <link rel=\"http://opds-spec.org/image\" href=\"/api/v1/books/");
        extend_chars(&mut v, &id);
        extend_str(&mut v, "/cover\" type=\"image/jpeg\"/>\n");
        extend_str(&mut v, "    <link rel=\"http://opds-spec.org/image/thumbnail\" href=\"/api/v1/books/");
        extend_chars(&mut v, &id);
        extend_str(&mut v, "/cover\" type=\"image/jpeg\"/>\n");
    }
    let ghost with_cover = v@;
    let mut i: usize = 0;
    while i < formats.len()
        invariant
            i <= formats.len(),
            id@ == decimal(book_id as int),
            v@ == with_cover + acquisition_links(book_id, formats@, i as nat),
        decreases formats.len() - i,
    {
        extend_str(&mut v, "    <link rel=\"http://opds-spec.org/acquisition\" href=\"/api/v1/books/");
        extend_chars(&mut v, &id);
        extend_str(&mut v, "/file?format=");
        extend_str(&mut v, xml_escape(formats[i].0.as_str()).as_str());
        extend_str(&mut v, "\" type=\"");
        extend_str(&mut v, xml_escape(formats[i].1.as_str()).as_str());
        extend_str(&mut v, "\"/>\n");
        i = i + 1;
    }
    extend_str(&mut v, "  </entry>\n");
    string_of(&v)
}

/// Query of `GET /opds/search`.
pub struct SearchQuery {
    pub q: String,
}

/// The term a catalog search looks for: the query trimmed and lowercased;
/// `None` for a blank query (which answers an empty feed).
pub fn search_term(query: &SearchQuery) -> (r: Option<String>)
    ensures
        trim(query.q@).len() == 0 <==> r is None,
        r matches Some(t) ==> t@ == lowercase(trim(query.q@)),
{
    let t = trim_str(query.q.as_str());
    if t.len() == 0 {
        return None;
    }
    let ts = string_of(&t);
    Some(to_lowercase(ts.as_str()))
}

/// Whether a title matches a search term (its lowercase form contains it).
pub fn title_matches_term(title: &str, term: &str) -> (r: bool)
    ensures
        r == (find(lowercase(title@), term@) is Some),
{
    let l = to_lowercase(title);
    let lc = chars_of(l.as_str());
    let tc = chars_of(term);
    find_chars(&lc, &tc, 0).is_some()
}

/// The key that orders search results: titles whose lowercase form starts
/// with the term first, then by title.
pub open spec fn relevance_key(title: Seq<char>, term: Seq<char>) -> Seq<char> {
    (if starts_with(lowercase(title), term) {
        seq!['0']
    } else {
        seq!['1']
    }) + title
}

/// The ordering key of a search result.
pub fn search_relevance_key(title: &str, term: &str) -> (k: SortKey)
    ensures
        k matches SortKey::Text(t) && t@ == relevance_key(title@, term@),
{
    let l = to_lowercase(title);
    let lc = chars_of(l.as_str());
    let starts = crate::text::starts_with_str(&lc, term);
    let mut v: Vec<char> = Vec::new();
    if starts {
        v.push('0');
    } else {
        v.push('1');
    }
    extend_str(&mut v, title);
    assert(v@ =~= relevance_key(title@, term@));
    SortKey::Text(v)
}

} // verus!
