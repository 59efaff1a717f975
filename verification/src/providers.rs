//! The metadata providers' requests and replies: the addresses the Google
//! Books and Open Library APIs are asked at, and how their answers become
//! [`BookMetadata`] candidates.
//!
//! Sending the requests and parsing the JSON replies is the caller's work;
//! the replies are handed over in the records below, shaped as the APIs
//! send them. How closely a candidate matches the search is scored by the
//! caller too.

use vstd::prelude::*;
use vstd::utf8::encode_utf8;
use crate::folder::{lemma_picks_step, picks};
use crate::metadata::{or_else, BookMetadata, MetadataError, MetadataView};
use crate::text::{
    chars_of, clone_opt, clone_strings, decimal, decimal_i64, extend_chars, extend_str, ostr, replace_all,
    replace_chars, str_eq, string_from_str, string_of, strs,
};

verus! {

// ---------------------------------------------------------------------------
// Percent-encoding
// ---------------------------------------------------------------------------

/// Whether percent-encoding keeps a byte as it is: ASCII letters and digits,
/// `-`, `.`, `_` and `~`.
pub open spec fn url_unreserved(b: u8) -> bool {
    (48 <= b <= 57) || (65 <= b <= 90) || (97 <= b <= 122) || b == 45 || b == 46 || b == 95 || b == 126
}

/// The upper-case hexadecimal digit of `d` (below 16).
pub open spec fn hex_upper(d: u8) -> char {
    if d < 10 {
        (48 + d) as char
    } else {
        (55 + d) as char
    }
}

/// Bytes percent-encoded: each kept byte as its character, every other byte
/// as `%` and its two upper-case hexadecimal digits.
pub open spec fn percent_encoded(bytes: Seq<u8>) -> Seq<char>
    decreases bytes.len(),
{
    if bytes.len() == 0 {
        seq![]
    } else {
        let b = bytes.last();
        percent_encoded(bytes.drop_last()) + if url_unreserved(b) {
            seq![b as char]
        } else {
            seq!['%', hex_upper(b / 16), hex_upper(b % 16)]
        }
    }
}

/// `urlencoding::encode`: the text's UTF-8 bytes, percent-encoded as
/// [`percent_encoded`] says (the crate keeps alphanumerics and `-._~`).
#[verifier::external_body]
fn url_encode(s: &str) -> (out: String)
    ensures
        out@ == percent_encoded(encode_utf8(s@)),
{
    urlencoding::encode(s).into_owned()
}

/// Optional texts by their views, none as an empty list.
pub open spec fn oseqs(v: Option<Vec<String>>) -> Seq<Seq<char>> {
    match v {
        Some(x) => strs(x@),
        None => Seq::empty(),
    }
}

/// A clone of optional texts, none as an empty list.
fn strings_or_empty(v: &Option<Vec<String>>) -> (out: Vec<String>)
    ensures
        strs(out@) == oseqs(*v),
{
    match v {
        Some(x) => clone_strings(x),
        None => Vec::new(),
    }
}

// ---------------------------------------------------------------------------
// Google Books
// ---------------------------------------------------------------------------

/// An industry identifier of a Google Books volume.
pub struct GoogleBooksIdentifier {
    pub identifier_type: String,
    pub identifier: String,
}

/// The cover images of a Google Books volume.
pub struct GoogleBooksImageLinks {
    pub thumbnail: Option<String>,
    pub small_thumbnail: Option<String>,
}

/// The `volumeInfo` of a Google Books volume.
pub struct GoogleBooksVolumeInfo {
    pub title: Option<String>,
    pub authors: Option<Vec<String>>,
    pub description: Option<String>,
    pub publisher: Option<String>,
    pub published_date: Option<String>,
    pub page_count: Option<i32>,
    pub categories: Option<Vec<String>>,
    pub image_links: Option<GoogleBooksImageLinks>,
    pub industry_identifiers: Option<Vec<GoogleBooksIdentifier>>,
}

/// A Google Books volume, as a search lists it or a lookup returns it.
pub struct GoogleBooksItem {
    pub id: Option<String>,
    pub volume_info: Option<GoogleBooksVolumeInfo>,
}

/// The search query: `intitle:TITLE`, then `+inauthor:AUTHOR` when an author
/// is given.
pub open spec fn google_books_query(title: Seq<char>, author: Option<Seq<char>>) -> Seq<char> {
    match author {
        Some(a) => "intitle:"@ + title + "+inauthor:"@ + a,
        None => "intitle:"@ + title,
    }
}

/// The address of a Google Books search for a title (and author): five
/// results at most.
pub fn google_books_search_url(title: &str, author: Option<&str>) -> (out: String)
    ensures
        out@ == "https://www.googleapis.com/books/v1/volumes?q="@ + percent_encoded(
            encode_utf8(
                google_books_query(
                    title@,
                    match author {
                        Some(a) => Some(a@),
                        None => None,
                    },
                ),
            ),
        ) + "&maxResults=5"@,
{
    let mut q = chars_of("intitle:");
    extend_str(&mut q, title);
    match author {
        Some(a) => {
            extend_str(&mut q, "+inauthor:");
            extend_str(&mut q, a);
        },
        None => {},
    }
    let query = string_of(&q);
    let enc = url_encode(query.as_str());
    let mut v = chars_of("https://www.googleapis.com/books/v1/volumes?q=");
    extend_str(&mut v, enc.as_str());
    extend_str(&mut v, "&maxResults=5");
    string_of(&v)
}

/// The address of one Google Books volume.
pub fn google_books_volume_url(external_id: &str) -> (out: String)
    ensures
        out@ == "https://www.googleapis.com/books/v1/volumes/"@ + percent_encoded(encode_utf8(external_id@)),
{
    let enc = url_encode(external_id);
    let mut v = chars_of("https://www.googleapis.com/books/v1/volumes/");
    extend_str(&mut v, enc.as_str());
    string_of(&v)
}

/// The cover of a volume: its thumbnail, else its small thumbnail, with
/// `http://` made `https://`.
pub open spec fn google_cover_of(links: Option<GoogleBooksImageLinks>) -> Option<Seq<char>> {
    match links {
        None => None,
        Some(l) => match or_else(ostr(l.thumbnail), ostr(l.small_thumbnail)) {
            Some(u) => Some(replace_all(u, "http://"@, "https://"@)),
            None => None,
        },
    }
}

/// The cover address of a volume.
pub fn google_cover_url(links: &Option<GoogleBooksImageLinks>) -> (out: Option<String>)
    ensures
        ostr(out) == google_cover_of(*links),
{
    let l = match links {
        Some(l) => l,
        None => return None,
    };
    let u = match &l.thumbnail {
        Some(t) => t,
        None => match &l.small_thumbnail {
            Some(s) => s,
            None => return None,
        },
    };
    proof {
        reveal_strlit("http://");
    }
    let c = chars_of(u.as_str());
    let r = replace_chars(&c, "http://", "https://");
    Some(string_of(&r))
}

/// The value of the first identifier of type `t`.
pub open spec fn first_of_type(ids: Seq<GoogleBooksIdentifier>, t: Seq<char>) -> Option<Seq<char>>
    decreases ids.len(),
{
    if ids.len() == 0 {
        None
    } else {
        match first_of_type(ids.drop_last(), t) {
            Some(x) => Some(x),
            None => if ids.last().identifier_type@ == t {
                Some(ids.last().identifier@)
            } else {
                None
            },
        }
    }
}

/// The first identifier of a prefix with the type is the first of the whole.
proof fn lemma_first_of_type_prefix(ids: Seq<GoogleBooksIdentifier>, t: Seq<char>, n: int)
    requires
        0 <= n <= ids.len(),
        first_of_type(ids.take(n), t) is Some,
    ensures
        first_of_type(ids, t) == first_of_type(ids.take(n), t),
    decreases ids.len() - n,
{
    if n < ids.len() {
        assert(ids.take(n + 1).drop_last() =~= ids.take(n));
        lemma_first_of_type_prefix(ids, t, n + 1);
    } else {
        assert(ids.take(n) =~= ids);
    }
}

/// The value of the first identifier of type `t`.
fn first_identifier(ids: &Vec<GoogleBooksIdentifier>, t: &str) -> (r: Option<String>)
    ensures
        ostr(r) == first_of_type(ids@, t@),
{
    let mut i: usize = 0;
    while i < ids.len()
        invariant
            i <= ids.len(),
            first_of_type(ids@.take(i as int), t@) is None,
        decreases ids.len() - i,
    {
        assert(ids@.take(i + 1).drop_last() =~= ids@.take(i as int));
        if str_eq(ids[i].identifier_type.as_str(), t) {
            proof {
                lemma_first_of_type_prefix(ids@, t@, i as int + 1);
            }
            return Some(ids[i].identifier.clone());
        }
        i = i + 1;
    }
    assert(ids@.take(ids.len() as int) =~= ids@);
    None
}

/// The ISBN of a volume: its first ISBN-13, else its first ISBN-10.
pub open spec fn google_isbn_of(ids: Option<Vec<GoogleBooksIdentifier>>) -> Option<Seq<char>> {
    match ids {
        None => None,
        Some(v) => or_else(first_of_type(v@, "ISBN_13"@), first_of_type(v@, "ISBN_10"@)),
    }
}

/// The ISBN of a volume.
pub fn google_isbn(ids: &Option<Vec<GoogleBooksIdentifier>>) -> (out: Option<String>)
    ensures
        ostr(out) == google_isbn_of(*ids),
{
    match ids {
        None => None,
        Some(v) => match first_identifier(v, "ISBN_13") {
            Some(x) => Some(x),
            None => first_identifier(v, "ISBN_10"),
        },
    }
}

/// The metadata of a volume.
pub open spec fn google_volume_view(info: GoogleBooksVolumeInfo) -> MetadataView {
    MetadataView {
        title: ostr(info.title),
        authors: oseqs(info.authors),
        description: ostr(info.description),
        cover_url: google_cover_of(info.image_links),
        isbn: google_isbn_of(info.industry_identifiers),
        publisher: ostr(info.publisher),
        publish_date: ostr(info.published_date),
        page_count: info.page_count,
        categories: oseqs(info.categories),
    }
}

/// The metadata of a volume's information.
pub fn google_volume_metadata(info: &GoogleBooksVolumeInfo) -> (out: BookMetadata)
    ensures
        out@ == google_volume_view(*info),
{
    BookMetadata {
        title: clone_opt(&info.title),
        authors: strings_or_empty(&info.authors),
        description: clone_opt(&info.description),
        cover_url: google_cover_url(&info.image_links),
        isbn: google_isbn(&info.industry_identifiers),
        publisher: clone_opt(&info.publisher),
        publish_date: clone_opt(&info.published_date),
        page_count: info.page_count,
        categories: strings_or_empty(&info.categories),
    }
}

/// The metadata of a looked-up volume; a volume without information is an
/// unreadable reply.
pub fn google_fetch_metadata(item: &GoogleBooksItem) -> (r: Result<BookMetadata, MetadataError>)
    ensures
        match item.volume_info {
            Some(info) => r matches Ok(m) && m@ == google_volume_view(info),
            None => r matches Err(e) && e matches MetadataError::Parse(msg) && msg@ == "missing volumeInfo"@,
        },
{
    match &item.volume_info {
        Some(info) => Ok(google_volume_metadata(info)),
        None => Err(MetadataError::Parse(string_from_str("missing volumeInfo"))),
    }
}

/// Whether a listed volume is a candidate: it has information and an id.
pub open spec fn google_listed(item: GoogleBooksItem) -> bool {
    item.volume_info is Some && item.id is Some
}

/// `pos` lists, in increasing order, exactly the positions of the candidate
/// volumes.
pub open spec fn google_candidate_positions(pos: Seq<usize>, items: Seq<GoogleBooksItem>) -> bool {
    picks(pos, items.len() as int, |i: int| google_listed(items[i]))
}

/// The candidates of a search: for each volume with information and an id,
/// in the listed order, its id and its metadata.
pub fn google_search_candidates(items: &Vec<GoogleBooksItem>) -> (out: Vec<(String, BookMetadata)>)
    ensures
        exists|pos: Seq<usize>|
            #[trigger] google_candidate_positions(pos, items@) && pos.len() == out@.len() && forall|p: int|
                0 <= p < out@.len() ==> {
                    let item = items@[pos[p] as int];
                    &&& Some((#[trigger] out@[p]).0@) == ostr(item.id)
                    &&& out@[p].1@ == google_volume_view(item.volume_info.unwrap())
                },
{
    let mut out: Vec<(String, BookMetadata)> = Vec::new();
    let ghost mut pos: Seq<usize> = seq![];
    let mut i: usize = 0;
    while i < items.len()
        invariant
            i <= items.len(),
            picks(pos, i as int, |j: int| google_listed(items@[j])),
            pos.len() == out@.len(),
            forall|p: int|
                0 <= p < out@.len() ==> {
                    let item = items@[pos[p] as int];
                    &&& Some((#[trigger] out@[p]).0@) == ostr(item.id)
                    &&& out@[p].1@ == google_volume_view(item.volume_info.unwrap())
                },
        decreases items.len() - i,
    {
        let ghost before = pos;
        let item = &items[i];
        let keep = item.volume_info.is_some() && item.id.is_some();
        if keep {
            match (&item.volume_info, &item.id) {
                (Some(info), Some(id)) => {
                    out.push((id.clone(), google_volume_metadata(info)));
                    proof {
                        pos = pos.push(i);
                    }
                },
                _ => {},
            }
        }
        proof {
            lemma_picks_step(before, pos, i as int, |j: int| google_listed(items@[j]), keep);
        }
        i = i + 1;
    }
    assert(google_candidate_positions(pos, items@));
    out
}

// ---------------------------------------------------------------------------
// Open Library
// ---------------------------------------------------------------------------

/// A document of an Open Library search.
pub struct OpenLibraryDocument {
    pub key: Option<String>,
    pub title: Option<String>,
    pub author_name: Option<Vec<String>>,
    pub cover_i: Option<i64>,
    pub isbn: Option<Vec<String>>,
    pub publisher: Option<Vec<String>>,
    pub first_publish_year: Option<i32>,
    pub number_of_pages_median: Option<i32>,
    pub subject: Option<Vec<String>>,
}

/// An Open Library work. Its description, given either as text or as an
/// object with a `value`, is handed over as that text.
pub struct OpenLibraryWork {
    pub title: String,
    pub description: Option<String>,
    pub covers: Option<Vec<i64>>,
    pub subjects: Option<Vec<String>>,
}

/// The address of an Open Library search for a title (and author): five
/// results at most.
pub fn open_library_search_url(title: &str, author: Option<&str>) -> (out: String)
    ensures
        out@ == "https://openlibrary.org/search.json?title="@ + percent_encoded(encode_utf8(title@))
            + "&limit=5"@ + match author {
            Some(a) => "&author="@ + percent_encoded(encode_utf8(a@)),
            None => Seq::<char>::empty(),
        },
{
    let mut v = chars_of("https://openlibrary.org/search.json?title=");
    let t = url_encode(title);
    extend_str(&mut v, t.as_str());
    extend_str(&mut v, "&limit=5");
    match author {
        Some(a) => {
            extend_str(&mut v, "&author=");
            let e = url_encode(a);
            extend_str(&mut v, e.as_str());
        },
        None => {},
    }
    string_of(&v)
}

/// The address of an Open Library work by its key (such as `/works/OL1W`).
pub fn open_library_work_url(external_id: &str) -> (out: String)
    ensures
        out@ == "https://openlibrary.org"@ + external_id@ + ".json"@,
{
    let mut v = chars_of("https://openlibrary.org");
    extend_str(&mut v, external_id);
    extend_str(&mut v, ".json");
    string_of(&v)
}

/// The address of an Open Library cover image, large.
pub open spec fn open_library_cover_of(cover_id: i64) -> Seq<char> {
    "https://covers.openlibrary.org/b/id/"@ + decimal(cover_id as int) + "-L.jpg"@
}

/// The address of an Open Library cover image.
pub fn open_library_cover_url(cover_id: i64) -> (out: String)
    ensures
        out@ == open_library_cover_of(cover_id),
{
    let mut v = chars_of("https://covers.openlibrary.org/b/id/");
    extend_chars(&mut v, &decimal_i64(cover_id));
    extend_str(&mut v, "-L.jpg");
    string_of(&v)
}

/// The first of `isbns` whose UTF-8 form is 13 bytes long.
pub open spec fn first_isbn13(isbns: Seq<String>) -> Option<Seq<char>>
    decreases isbns.len(),
{
    if isbns.len() == 0 {
        None
    } else {
        match first_isbn13(isbns.drop_last()) {
            Some(x) => Some(x),
            None => if encode_utf8(isbns.last()@).len() == 13 {
                Some(isbns.last()@)
            } else {
                None
            },
        }
    }
}

/// The first 13-byte ISBN of a prefix that holds one is the first of the whole.
proof fn lemma_first_isbn13_prefix(isbns: Seq<String>, n: int)
    requires
        0 <= n <= isbns.len(),
        first_isbn13(isbns.take(n)) is Some,
    ensures
        first_isbn13(isbns) == first_isbn13(isbns.take(n)),
    decreases isbns.len() - n,
{
    if n < isbns.len() {
        assert(isbns.take(n + 1).drop_last() =~= isbns.take(n));
        lemma_first_isbn13_prefix(isbns, n + 1);
    } else {
        assert(isbns.take(n) =~= isbns);
    }
}

/// The ISBN of a document: its first ISBN-13 (13 bytes), else its first.
pub open spec fn open_library_isbn_of(isbns: Option<Vec<String>>) -> Option<Seq<char>> {
    match isbns {
        None => None,
        Some(v) => or_else(
            first_isbn13(v@),
            if v@.len() > 0 {
                Some(v@[0]@)
            } else {
                None
            },
        ),
    }
}

/// The ISBN of a document.
pub fn open_library_isbn(isbns: &Option<Vec<String>>) -> (out: Option<String>)
    ensures
        ostr(out) == open_library_isbn_of(*isbns),
{
    let v = match isbns {
        Some(v) => v,
        None => return None,
    };
    let mut i: usize = 0;
    while i < v.len()
        invariant
            i <= v.len(),
            first_isbn13(v@.take(i as int)) is None,
            *isbns == Some(*v),
        decreases v.len() - i,
    {
        assert(v@.take(i + 1).drop_last() =~= v@.take(i as int));
        if v[i].as_str().as_bytes().len() == 13 {
            proof {
                assert(v@.take(i + 1).last() == v@[i as int]);
                assert(first_isbn13(v@.take(i + 1)) == Some(v@[i as int]@));
                lemma_first_isbn13_prefix(v@, i as int + 1);
            }
            return Some(v[i].clone());
        }
        i = i + 1;
    }
    assert(v@.take(v.len() as int) =~= v@);
    if v.len() > 0 {
        Some(v[0].clone())
    } else {
        None
    }
}

/// The first of optional texts.
pub open spec fn first_text(v: Option<Vec<String>>) -> Option<Seq<char>> {
    match v {
        Some(x) => if x@.len() > 0 {
            Some(x@[0]@)
        } else {
            None
        },
        None => None,
    }
}

/// The first of optional texts, cloned.
fn first_string(v: &Option<Vec<String>>) -> (out: Option<String>)
    ensures
        ostr(out) == first_text(*v),
{
    match v {
        Some(x) => if x.len() > 0 {
            Some(x[0].clone())
        } else {
            None
        },
        None => None,
    }
}

/// The metadata of a search document with a title: no description (the
/// search does not give one), its large cover, its ISBN, its first
/// publisher, its first publication year as the date, its median page
/// count and its subjects.
pub open spec fn open_library_document_view(doc: OpenLibraryDocument) -> MetadataView {
    MetadataView {
        title: ostr(doc.title),
        authors: oseqs(doc.author_name),
        description: None,
        cover_url: match doc.cover_i {
            Some(c) => Some(open_library_cover_of(c)),
            None => None,
        },
        isbn: open_library_isbn_of(doc.isbn),
        publisher: first_text(doc.publisher),
        publish_date: match doc.first_publish_year {
            Some(y) => Some(decimal(y as int)),
            None => None,
        },
        page_count: doc.number_of_pages_median,
        categories: oseqs(doc.subject),
    }
}

/// The metadata of a search document.
pub fn open_library_document_metadata(doc: &OpenLibraryDocument) -> (out: BookMetadata)
    ensures
        out@ == open_library_document_view(*doc),
{
    BookMetadata {
        title: clone_opt(&doc.title),
        authors: strings_or_empty(&doc.author_name),
        description: None,
        cover_url: match doc.cover_i {
            Some(c) => Some(open_library_cover_url(c)),
            None => None,
        },
        isbn: open_library_isbn(&doc.isbn),
        publisher: first_string(&doc.publisher),
        publish_date: match doc.first_publish_year {
            Some(y) => Some(string_of(&decimal_i64(y as i64))),
            None => None,
        },
        page_count: doc.number_of_pages_median,
        categories: strings_or_empty(&doc.subject),
    }
}

/// Whether a search document is a candidate: it has a title and a key.
pub open spec fn open_library_listed(doc: OpenLibraryDocument) -> bool {
    doc.title is Some && doc.key is Some
}

/// `pos` lists, in increasing order, exactly the positions of the candidate
/// documents.
pub open spec fn open_library_candidate_positions(pos: Seq<usize>, docs: Seq<OpenLibraryDocument>) -> bool {
    picks(pos, docs.len() as int, |i: int| open_library_listed(docs[i]))
}

/// The candidates of a search: for each document with a title and a key, in
/// the listed order, its key and its metadata.
pub fn open_library_search_candidates(docs: &Vec<OpenLibraryDocument>) -> (out: Vec<(String, BookMetadata)>)
    ensures
        exists|pos: Seq<usize>|
            #[trigger] open_library_candidate_positions(pos, docs@) && pos.len() == out@.len() && forall|p: int|
                0 <= p < out@.len() ==> {
                    let doc = docs@[pos[p] as int];
                    &&& Some((#[trigger] out@[p]).0@) == ostr(doc.key)
                    &&& out@[p].1@ == open_library_document_view(doc)
                },
{
    let mut out: Vec<(String, BookMetadata)> = Vec::new();
    let ghost mut pos: Seq<usize> = seq![];
    let mut i: usize = 0;
    while i < docs.len()
        invariant
            i <= docs.len(),
            picks(pos, i as int, |j: int| open_library_listed(docs@[j])),
            pos.len() == out@.len(),
            forall|p: int|
                0 <= p < out@.len() ==> {
                    let doc = docs@[pos[p] as int];
                    &&& Some((#[trigger] out@[p]).0@) == ostr(doc.key)
                    &&& out@[p].1@ == open_library_document_view(doc)
                },
        decreases docs.len() - i,
    {
        let ghost before = pos;
        let doc = &docs[i];
        let keep = doc.title.is_some() && doc.key.is_some();
        if keep {
            match &doc.key {
                Some(key) => {
                    out.push((key.clone(), open_library_document_metadata(doc)));
                    proof {
                        pos = pos.push(i);
                    }
                },
                None => {},
            }
        }
        proof {
            lemma_picks_step(before, pos, i as int, |j: int| open_library_listed(docs@[j]), keep);
        }
        i = i + 1;
    }
    assert(open_library_candidate_positions(pos, docs@));
    out
}

/// The metadata of a work: its title, description, first cover (large) and
/// subjects; the work gives no authors, ISBN, publisher, date or page count.
pub open spec fn open_library_work_view(work: OpenLibraryWork) -> MetadataView {
    MetadataView {
        title: Some(work.title@),
        authors: Seq::empty(),
        description: ostr(work.description),
        cover_url: match work.covers {
            Some(c) => if c@.len() > 0 {
                Some(open_library_cover_of(c@[0]))
            } else {
                None
            },
            None => None,
        },
        isbn: None,
        publisher: None,
        publish_date: None,
        page_count: None,
        categories: oseqs(work.subjects),
    }
}

/// The metadata of a work.
pub fn open_library_work_metadata(work: &OpenLibraryWork) -> (out: BookMetadata)
    ensures
        out@ == open_library_work_view(*work),
{
    let cover_url = match &work.covers {
        Some(c) => if c.len() > 0 {
            Some(open_library_cover_url(c[0]))
        } else {
            None
        },
        None => None,
    };
    let authors: Vec<String> = Vec::new();
    assert(strs(authors@) =~= Seq::<Seq<char>>::empty());
    BookMetadata {
        title: Some(work.title.clone()),
        authors,
        description: clone_opt(&work.description),
        cover_url,
        isbn: None,
        publisher: None,
        publish_date: None,
        page_count: None,
        categories: strings_or_empty(&work.subjects),
    }
}

} // verus!
