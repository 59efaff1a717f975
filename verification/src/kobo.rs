//! Kobo sync: the entitlements a Kobo device is handed for a library's books.
//!
//! Only books with an EPUB file are offered (a Kobo reads EPUB). Each one's
//! contributors are resolved from the library's authors by id; its dates come
//! as the text the library gives them.

use vstd::prelude::*;
use crate::error::AppError;
use crate::files::{find_format_ignoring_case, first_kind_match};
use crate::folder::{lemma_picks_step, picks};
use crate::model::{Author, Format};
use crate::sso::entitlement_id;
use crate::text::{chars_of, decimal, decimal_i64, extend_chars, extend_str, ostr, string_from_str, string_of, strs};

verus! {

/// What Kobo sync reads of a book. The publication day comes as
/// `YYYY-MM-DD`, the time the book was added as RFC 3339 text.
pub struct KoboBook {
    pub id: i64,
    pub title: String,
    pub author_ids: Vec<i64>,
    pub formats: Vec<Format>,
    pub languages: Vec<String>,
    pub description: Option<String>,
    pub pubdate: Option<String>,
    pub added_at: Option<String>,
}

/// One entry of the sync response: a book's metadata, its EPUB download
/// and its status.
pub struct KoboEntitlement {
    pub contributors: Vec<String>,
    pub description: String,
    pub download_format: String,
    pub download_size: u64,
    pub download_url: String,
    pub entitlement_id: String,
    pub language: String,
    pub publication_date: String,
    pub publisher: String,
    pub revision_id: String,
    pub title: String,
    pub work_id: String,
    pub cover_image_id: String,
    pub metadata_last_modified: String,
    pub last_modified: String,
    pub status: String,
}

/// The position of the book's EPUB: its first format of kind EPUB in any
/// ASCII case.
pub open spec fn first_epub(formats: Seq<Format>) -> Option<int> {
    first_kind_match(formats, "EPUB"@)
}

/// The name of the first author with id `id`.
pub open spec fn author_name_by_id(authors: Seq<Author>, id: i64) -> Option<Seq<char>>
    decreases authors.len(),
{
    if authors.len() == 0 {
        None
    } else {
        match author_name_by_id(authors.drop_last(), id) {
            Some(n) => Some(n),
            None => if authors.last().id == id {
                Some(authors.last().name@)
            } else {
                None
            },
        }
    }
}

/// The names of a book's authors, in the order of its author ids; ids of
/// no known author are skipped.
pub open spec fn contributor_names(ids: Seq<i64>, authors: Seq<Author>) -> Seq<Seq<char>>
    decreases ids.len(),
{
    if ids.len() == 0 {
        seq![]
    } else {
        let rest = contributor_names(ids.drop_last(), authors);
        match author_name_by_id(authors, ids.last()) {
            Some(n) => rest.push(n),
            None => rest,
        }
    }
}

/// The day a device is told a book was published: the publication day at
/// midnight UTC, or the epoch.
pub open spec fn publication_date_of(pubdate: Option<Seq<char>>) -> Seq<char> {
    match pubdate {
        Some(d) => d + "T00:00:00Z"@,
        None => "1970-01-01T00:00:00Z"@,
    }
}

/// When a device is told a book last changed: when it was added, or the
/// epoch.
pub open spec fn last_modified_of(added_at: Option<Seq<char>>) -> Seq<char> {
    match added_at {
        Some(t) => t,
        None => "1970-01-01T00:00:00Z"@,
    }
}

/// The download address of a book's EPUB.
pub open spec fn download_url_of(base_url: Seq<char>, auth_token: Seq<char>, book_id: i64) -> Seq<char> {
    base_url + "/kobo/"@ + auth_token + "/v1/books/"@ + decimal(book_id as int) + "/file/epub"@
}

/// `e` is the entitlement of `book`, whose EPUB is its format at `fmt`.
pub open spec fn is_entitlement(
    e: KoboEntitlement,
    book: KoboBook,
    authors: Seq<Author>,
    base_url: Seq<char>,
    auth_token: Seq<char>,
    fmt: int,
) -> bool {
    let id = "ironshelf-"@ + decimal(book.id as int);
    &&& strs(e.contributors@) == contributor_names(book.author_ids@, authors)
    &&& e.description@ == match book.description {
        Some(d) => d@,
        None => Seq::<char>::empty(),
    }
    &&& e.download_format@ == "EPUB"@
    &&& e.download_size == match book.formats@[fmt].size {
        Some(s) => s,
        None => 0u64,
    }
    &&& e.download_url@ == download_url_of(base_url, auth_token, book.id)
    &&& e.entitlement_id@ == id
    &&& e.language@ == if book.languages@.len() > 0 {
        book.languages@[0]@
    } else {
        "en"@
    }
    &&& e.publication_date@ == publication_date_of(ostr(book.pubdate))
    &&& e.publisher@ == Seq::<char>::empty()
    &&& e.revision_id@ == "ironshelf-"@ + decimal(book.id as int) + "-1"@
    &&& e.title@ == book.title@
    &&& e.work_id@ == id
    &&& e.cover_image_id@ == id
    &&& e.metadata_last_modified@ == last_modified_of(ostr(book.added_at))
    &&& e.last_modified@ == last_modified_of(ostr(book.added_at))
    &&& e.status@ == "Active"@
}

/// The position of a book's EPUB, if it has one.
pub fn epub_format(formats: &Vec<Format>) -> (r: Option<usize>)
    ensures
        match first_epub(formats@) {
            Some(i) => r matches Some(k) && k == i,
            None => r is None,
        },
        r matches Some(i) ==> i < formats@.len(),
{
    find_format_ignoring_case(formats, "EPUB")
}

/// The format a device's download request is served: the requested kind,
/// ignoring ASCII case; not found when the book has none.
pub fn kobo_download_format(formats: &Vec<Format>, requested_format: &str) -> (r: Result<usize, AppError>)
    ensures
        match first_kind_match(formats@, requested_format@) {
            Some(i) => r matches Ok(k) && k == i,
            None => r matches Err(e) && e matches AppError::NotFound(m) && m@ == "Format '"@
                + requested_format@ + "' not available for this book"@,
        },
        r matches Ok(i) ==> i < formats@.len(),
{
    match find_format_ignoring_case(formats, requested_format) {
        Some(i) => Ok(i),
        None => {
            let mut v = chars_of("Format '");
            extend_str(&mut v, requested_format);
            extend_str(&mut v, "' not available for this book");
            Err(AppError::NotFound(string_of(&v)))
        },
    }
}

/// The name of the first author with id `id` among `authors`.
fn find_author_name(authors: &Vec<Author>, id: i64) -> (r: Option<String>)
    ensures
        ostr(r) == author_name_by_id(authors@, id),
{
    let mut i: usize = 0;
    while i < authors.len()
        invariant
            i <= authors.len(),
            author_name_by_id(authors@.take(i as int), id) is None,
        decreases authors.len() - i,
    {
        assert(authors@.take(i + 1).drop_last() =~= authors@.take(i as int));
        if authors[i].id == id {
            proof {
                lemma_author_name_prefix(authors@, id, i as int + 1);
            }
            return Some(authors[i].name.clone());
        }
        i = i + 1;
    }
    assert(authors@.take(authors.len() as int) =~= authors@);
    None
}

/// The first author of a prefix with the id is the first of the whole.
proof fn lemma_author_name_prefix(authors: Seq<Author>, id: i64, n: int)
    requires
        0 <= n <= authors.len(),
        author_name_by_id(authors.take(n), id) is Some,
    ensures
        author_name_by_id(authors, id) == author_name_by_id(authors.take(n), id),
    decreases authors.len() - n,
{
    if n < authors.len() {
        assert(authors.take(n + 1).drop_last() =~= authors.take(n));
        lemma_author_name_prefix(authors, id, n + 1);
    } else {
        assert(authors.take(n) =~= authors);
    }
}

/// The names of a book's authors, resolved by id.
pub fn contributors(author_ids: &Vec<i64>, authors: &Vec<Author>) -> (out: Vec<String>)
    ensures
        strs(out@) == contributor_names(author_ids@, authors@),
{
    let mut out: Vec<String> = Vec::new();
    let mut i: usize = 0;
    while i < author_ids.len()
        invariant
            i <= author_ids.len(),
            strs(out@) == contributor_names(author_ids@.take(i as int), authors@),
        decreases author_ids.len() - i,
    {
        let ghost before = out@;
        assert(author_ids@.take(i + 1).drop_last() =~= author_ids@.take(i as int));
        match find_author_name(authors, author_ids[i]) {
            Some(n) => {
                let ghost nv = n@;
                out.push(n);
                assert(strs(out@) =~= strs(before).push(nv));
            },
            None => {},
        }
        assert(strs(out@) =~= contributor_names(author_ids@.take(i + 1), authors@));
        i = i + 1;
    }
    assert(author_ids@.take(author_ids.len() as int) =~= author_ids@);
    out
}

/// The entitlement of a book for a device, none when it has no EPUB.
pub fn kobo_entitlement(book: &KoboBook, authors: &Vec<Author>, base_url: &str, auth_token: &str) -> (r:
    Option<KoboEntitlement>)
    ensures
        match first_epub(book.formats@) {
            Some(i) => r matches Some(e) && is_entitlement(e, *book, authors@, base_url@, auth_token@, i),
            None => r is None,
        },
{
    let fi = match epub_format(&book.formats) {
        Some(i) => i,
        None => return None,
    };
    let size: u64 = match book.formats[fi].size {
        Some(s) => s,
        None => 0,
    };
    let digits = decimal_i64(book.id);
    let mut url = chars_of(base_url);
    extend_str(&mut url, "/kobo/");
    extend_str(&mut url, auth_token);
    extend_str(&mut url, "/v1/books/");
    extend_chars(&mut url, &digits);
    extend_str(&mut url, "/file/epub");
    let mut rev = chars_of("ironshelf-");
    extend_chars(&mut rev, &digits);
    extend_str(&mut rev, "-1");
    let publication_date = match &book.pubdate {
        Some(d) => {
            let mut v = chars_of(d.as_str());
            extend_str(&mut v, "T00:00:00Z");
            string_of(&v)
        },
        None => string_from_str("1970-01-01T00:00:00Z"),
    };
    let last_modified = match &book.added_at {
        Some(t) => t.clone(),
        None => string_from_str("1970-01-01T00:00:00Z"),
    };
    let language = if book.languages.len() > 0 {
        book.languages[0].clone()
    } else {
        string_from_str("en")
    };
    let description = match &book.description {
        Some(d) => d.clone(),
        None => string_from_str(""),
    };
    let e = KoboEntitlement {
        contributors: contributors(&book.author_ids, authors),
        description,
        download_format: string_from_str("EPUB"),
        download_size: size,
        download_url: string_of(&url),
        entitlement_id: entitlement_id(book.id),
        language,
        publication_date,
        publisher: string_from_str(""),
        revision_id: string_of(&rev),
        title: book.title.clone(),
        work_id: entitlement_id(book.id),
        cover_image_id: entitlement_id(book.id),
        metadata_last_modified: last_modified.clone(),
        last_modified,
        status: string_from_str("Active"),
    };
    proof {
        reveal_strlit("");
        let i = first_epub(book.formats@).unwrap();
        assert(e.download_url@ == download_url_of(base_url@, auth_token@, book.id));
        assert(e.revision_id@ == "ironshelf-"@ + decimal(book.id as int) + "-1"@);
        assert(e.publication_date@ == publication_date_of(ostr(book.pubdate)));
        assert(e.publisher@ == Seq::<char>::empty());
        assert(e.description@ == match book.description {
            Some(d) => d@,
            None => Seq::<char>::empty(),
        });
        assert(is_entitlement(e, *book, authors@, base_url@, auth_token@, i));
    }
    Some(e)
}

/// Whether a book is offered to a device: it has an EPUB.
pub open spec fn offered(book: KoboBook) -> bool {
    first_epub(book.formats@) is Some
}

/// `pos` lists, in increasing order, exactly the positions of the offered
/// books.
pub open spec fn offered_positions(pos: Seq<usize>, books: Seq<KoboBook>) -> bool {
    picks(pos, books.len() as int, |i: int| offered(books[i]))
}

/// The sync response for a library: the entitlements of the books with an
/// EPUB, in the library's order.
pub fn sync_entitlements(books: &Vec<KoboBook>, authors: &Vec<Author>, base_url: &str, auth_token: &str) -> (out:
    Vec<KoboEntitlement>)
    ensures
        exists|pos: Seq<usize>|
            #[trigger] offered_positions(pos, books@) && pos.len() == out@.len()
                && forall|p: int|
                0 <= p < out@.len() ==> is_entitlement(
                    #[trigger] out@[p],
                    books@[pos[p] as int],
                    authors@,
                    base_url@,
                    auth_token@,
                    first_epub(books@[pos[p] as int].formats@).unwrap(),
                ),
{
    let mut out: Vec<KoboEntitlement> = Vec::new();
    let ghost mut pos: Seq<usize> = seq![];
    let mut i: usize = 0;
    while i < books.len()
        invariant
            i <= books.len(),
            picks(pos, i as int, |j: int| offered(books@[j])),
            pos.len() == out@.len(),
            forall|p: int|
                0 <= p < out@.len() ==> is_entitlement(
                    #[trigger] out@[p],
                    books@[pos[p] as int],
                    authors@,
                    base_url@,
                    auth_token@,
                    first_epub(books@[pos[p] as int].formats@).unwrap(),
                ),
        decreases books.len() - i,
    {
        let ghost before = pos;
        let r = kobo_entitlement(&books[i], authors, base_url, auth_token);
        let keep = r.is_some();
        match r {
            Some(e) => {
                out.push(e);
                proof {
                    pos = pos.push(i);
                }
            },
            None => {},
        }
        proof {
            lemma_picks_step(before, pos, i as int, |j: int| offered(books@[j]), keep);
        }
        i = i + 1;
    }
    assert(offered_positions(pos, books@));
    out
}

} // verus!
