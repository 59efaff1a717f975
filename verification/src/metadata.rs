//! Metadata fetched from external providers, and how several results are
//! combined: the best match is the base and lower-ranked matches only fill
//! the gaps it leaves.

use vstd::prelude::*;
use crate::error::AppError;
use crate::text::{
    chars_of, clone_opt, clone_strings, decimal, digits_exec, digits_of, extend_chars, extend_str,
    ostr, split_once, split_once_chars, string_from_str, string_of, strs, trim, trim_chars,
    trim_str,
};

verus! {

/// Metadata fetched from an external provider.
#[derive(Debug, Clone)]
pub struct BookMetadata {
    pub title: Option<String>,
    pub authors: Vec<String>,
    pub description: Option<String>,
    pub cover_url: Option<String>,
    pub isbn: Option<String>,
    pub publisher: Option<String>,
    pub publish_date: Option<String>,
    pub page_count: Option<i32>,
    pub categories: Vec<String>,
}

/// The mathematical content of a [`BookMetadata`].
pub struct MetadataView {
    pub title: Option<Seq<char>>,
    pub authors: Seq<Seq<char>>,
    pub description: Option<Seq<char>>,
    pub cover_url: Option<Seq<char>>,
    pub isbn: Option<Seq<char>>,
    pub publisher: Option<Seq<char>>,
    pub publish_date: Option<Seq<char>>,
    pub page_count: Option<i32>,
    pub categories: Seq<Seq<char>>,
}

impl View for BookMetadata {
    type V = MetadataView;

    open spec fn view(&self) -> MetadataView {
        MetadataView {
            title: ostr(self.title),
            authors: strs(self.authors@),
            description: ostr(self.description),
            cover_url: ostr(self.cover_url),
            isbn: ostr(self.isbn),
            publisher: ostr(self.publisher),
            publish_date: ostr(self.publish_date),
            page_count: self.page_count,
            categories: strs(self.categories@),
        }
    }
}

/// The first of two optional values that is present.
pub open spec fn or_else<T>(a: Option<T>, b: Option<T>) -> Option<T> {
    if a is Some {
        a
    } else {
        b
    }
}

/// The first list unless it is empty, else the second.
pub open spec fn nonempty_or(a: Seq<Seq<char>>, b: Seq<Seq<char>>) -> Seq<Seq<char>> {
    if a.len() == 0 {
        b
    } else {
        a
    }
}

/// Field by field: the primary's value where it has one, else the secondary's.
pub open spec fn merge_view(p: MetadataView, s: MetadataView) -> MetadataView {
    MetadataView {
        title: or_else(p.title, s.title),
        authors: nonempty_or(p.authors, s.authors),
        description: or_else(p.description, s.description),
        cover_url: or_else(p.cover_url, s.cover_url),
        isbn: or_else(p.isbn, s.isbn),
        publisher: or_else(p.publisher, s.publisher),
        publish_date: or_else(p.publish_date, s.publish_date),
        page_count: or_else(p.page_count, s.page_count),
        categories: nonempty_or(p.categories, s.categories),
    }
}

/// Metadata with every field missing or empty.
pub open spec fn empty_view() -> MetadataView {
    MetadataView {
        title: None,
        authors: Seq::empty(),
        description: None,
        cover_url: None,
        isbn: None,
        publisher: None,
        publish_date: None,
        page_count: None,
        categories: Seq::empty(),
    }
}

/// Field by field, a merge keeps what the primary has: a present optional
/// value (a non-empty list) of the primary is the merged one, and the
/// secondary's value is taken only where the primary has none (an empty
/// list).
pub open spec fn primary_fills_first(p: MetadataView, s: MetadataView, m: MetadataView) -> bool {
    &&& m.title == (if p.title is Some { p.title } else { s.title })
    &&& m.authors == (if p.authors.len() > 0 { p.authors } else { s.authors })
    &&& m.description == (if p.description is Some { p.description } else { s.description })
    &&& m.cover_url == (if p.cover_url is Some { p.cover_url } else { s.cover_url })
    &&& m.isbn == (if p.isbn is Some { p.isbn } else { s.isbn })
    &&& m.publisher == (if p.publisher is Some { p.publisher } else { s.publisher })
    &&& m.publish_date == (if p.publish_date is Some { p.publish_date } else { s.publish_date })
    &&& m.page_count == (if p.page_count is Some { p.page_count } else { s.page_count })
    &&& m.categories == (if p.categories.len() > 0 { p.categories } else { s.categories })
}

/// Merging keeps the primary's values: every field the primary has is the
/// merged field, whatever the secondary holds; only the primary's gaps are
/// filled from the secondary.
pub proof fn lemma_merge_keeps_primary(p: MetadataView, s: MetadataView)
    ensures
        primary_fills_first(p, s, merge_view(p, s)),
        p.cover_url is Some ==> merge_view(p, s).cover_url == p.cover_url,
        p.title is Some ==> merge_view(p, s).title == p.title,
        p.description is Some ==> merge_view(p, s).description == p.description,
{
}

/// Merge metadata: start with `primary`, fill any `None` / empty fields from `secondary`.
pub fn merge_metadata(primary: &BookMetadata, secondary: &BookMetadata) -> (out: BookMetadata)
    ensures
        out@ == merge_view(primary@, secondary@),
        primary_fills_first(primary@, secondary@, out@),
{
    BookMetadata {
        title: if primary.title.is_some() { clone_opt(&primary.title) } else { clone_opt(&secondary.title) },
        authors: if primary.authors.len() == 0 {
            clone_strings(&secondary.authors)
        } else {
            clone_strings(&primary.authors)
        },
        description: if primary.description.is_some() {
            clone_opt(&primary.description)
        } else {
            clone_opt(&secondary.description)
        },
        cover_url: if primary.cover_url.is_some() {
            clone_opt(&primary.cover_url)
        } else {
            clone_opt(&secondary.cover_url)
        },
        isbn: if primary.isbn.is_some() { clone_opt(&primary.isbn) } else { clone_opt(&secondary.isbn) },
        publisher: if primary.publisher.is_some() {
            clone_opt(&primary.publisher)
        } else {
            clone_opt(&secondary.publisher)
        },
        publish_date: if primary.publish_date.is_some() {
            clone_opt(&primary.publish_date)
        } else {
            clone_opt(&secondary.publish_date)
        },
        page_count: if primary.page_count.is_some() { primary.page_count } else { secondary.page_count },
        categories: if primary.categories.len() == 0 {
            clone_strings(&secondary.categories)
        } else {
            clone_strings(&primary.categories)
        },
    }
}

/// Merging with metadata that has nothing, on either side, changes nothing.
pub proof fn lemma_merge_identity(m: MetadataView)
    ensures
        merge_view(empty_view(), m) == m,
        merge_view(m, empty_view()) == m,
{
    assert(merge_view(m, empty_view()).authors =~= m.authors);
    assert(merge_view(m, empty_view()).categories =~= m.categories);
}

/// Merging metadata with itself gives it back.
pub proof fn lemma_merge_idempotent(m: MetadataView)
    ensures
        merge_view(m, m) == m,
{
}

/// Merging is associative: filling gaps from `b` then `c` is the same as filling
/// them from `b` already filled from `c`.
pub proof fn lemma_merge_associative(a: MetadataView, b: MetadataView, c: MetadataView)
    ensures
        merge_view(merge_view(a, b), c) == merge_view(a, merge_view(b, c)),
{
}

/// The composite of the first `n` ranked results: the best one, with its gaps
/// filled from each later one in turn.
pub open spec fn composite_upto(ranked: Seq<MetadataView>, n: nat) -> MetadataView
    decreases n,
{
    if n <= 1 {
        ranked[0]
    } else {
        merge_view(composite_upto(ranked, (n - 1) as nat), ranked[n - 1])
    }
}

/// The views of a list of metadata.
pub open spec fn metadata_views(v: Seq<BookMetadata>) -> Seq<MetadataView> {
    v.map_values(|m: BookMetadata| m@)
}

/// Build the best composite metadata from results already ranked best first:
/// the first is the base, and each later one fills the gaps that remain.
/// `None` when there are no results.
pub fn composite_of_ranked(ranked: &Vec<BookMetadata>) -> (out: Option<BookMetadata>)
    ensures
        ranked.len() == 0 <==> out is None,
        out matches Some(m) ==> m@ == composite_upto(metadata_views(ranked@), ranked.len() as nat),
{
    if ranked.len() == 0 {
        return None;
    }
    let mut composite = merge_metadata(&ranked[0], &ranked[0]);
    proof {
        lemma_merge_idempotent(ranked@[0]@);
    }
    let mut i: usize = 1;
    while i < ranked.len()
        invariant
            1 <= i <= ranked.len(),
            composite@ == composite_upto(metadata_views(ranked@), i as nat),
        decreases ranked.len() - i,
    {
        composite = merge_metadata(&composite, &ranked[i]);
        proof {
            assert(metadata_views(ranked@)[i as int] == ranked@[i as int]@);
        }
        i = i + 1;
    }
    Some(composite)
}

/// The first present value among the first `n` of a list of optional values.
pub open spec fn first_present<T>(vals: Seq<Option<T>>, n: nat) -> Option<T>
    decreases n,
{
    if n == 0 {
        None
    } else if first_present(vals, (n - 1) as nat) is Some {
        first_present(vals, (n - 1) as nat)
    } else {
        vals[n - 1]
    }
}

/// The composite's title is the title of the best-ranked result that has one.
pub proof fn lemma_composite_title(ranked: Seq<MetadataView>, n: nat)
    requires
        1 <= n <= ranked.len(),
    ensures
        composite_upto(ranked, n).title == first_present(
            ranked.map_values(|m: MetadataView| m.title),
            n,
        ),
    decreases n,
{
    let titles = ranked.map_values(|m: MetadataView| m.title);
    if n == 1 {
        assert(first_present(titles, 0) is None);
        assert(titles[0] == ranked[0].title);
    } else {
        lemma_composite_title(ranked, (n - 1) as nat);
        assert(titles[n - 1] == ranked[n - 1].title);
    }
}

/// Error returned by a metadata provider.
#[derive(Debug)]
pub enum MetadataError {
    Http(String),
    Parse(String),
    NoResults,
}

/// The message of a provider error.
pub open spec fn metadata_error_message(e: MetadataError) -> Seq<char> {
    match e {
        MetadataError::Http(m) => "HTTP request failed: "@ + m@,
        MetadataError::Parse(m) => "failed to parse provider response: "@ + m@,
        MetadataError::NoResults => "provider returned no results"@,
    }
}

impl MetadataError {
    /// The human-readable message of the error.
    pub fn message(&self) -> (out: String)
        ensures
            out@ == metadata_error_message(*self),
    {
        let mut chars: Vec<char> = Vec::new();
        match self {
            MetadataError::Http(m) => {
                extend_str(&mut chars, "HTTP request failed: ");
                extend_str(&mut chars, m.as_str());
            },
            MetadataError::Parse(m) => {
                extend_str(&mut chars, "failed to parse provider response: ");
                extend_str(&mut chars, m.as_str());
            },
            MetadataError::NoResults => {
                extend_str(&mut chars, "provider returned no results");
            },
        }
        string_of(&chars)
    }
}

// ---------------------------------------------------------------------------
// Searching and applying metadata
// ---------------------------------------------------------------------------

/// Optional refine terms for a metadata search.
pub struct MetadataSearchQuery {
    pub title: Option<String>,
    pub author: Option<String>,
}

/// Body of `POST /api/v1/books/{id}/metadata/apply`.
pub struct ApplyMetadataRequest {
    /// Index into the search results to apply, or none to apply the composite.
    pub match_index: Option<usize>,
    /// Direct override fields (take precedence when provided).
    pub title: Option<String>,
    pub description: Option<String>,
    pub cover_url: Option<String>,
    pub tags: Option<Vec<String>>,
}

/// What applying metadata answers.
pub struct ApplyMetadataResponse {
    pub book_id: i64,
    pub applied: bool,
    /// Whether the change was also written back to Calibre.
    pub calibre_updated: bool,
}

/// The summary of a library-wide enrichment scan.
pub struct BulkScanResponse {
    pub library_id: String,
    pub books_missing_metadata: i64,
    pub books_enriched: i64,
    pub errors: Vec<BulkScanBookError>,
}

/// A book that a scan could not enrich.
pub struct BulkScanBookError {
    pub book_id: i64,
    pub title: String,
    pub error: String,
}

/// An author name in the "First Last" form that providers expect: "Last,
/// First" (both parts non-empty once trimmed) is turned around; any other
/// name is only trimmed.
pub open spec fn normalized_author(name: Seq<char>) -> Seq<char> {
    match split_once(name, ',') {
        Some((last, first)) => if trim(first).len() > 0 && trim(last).len() > 0 {
            trim(first) + seq![' '] + trim(last)
        } else {
            trim(name)
        },
        None => trim(name),
    }
}

/// Normalize an author name from Calibre's "Last, First" sort form.
pub fn normalize_author(name: &str) -> (out: String)
    ensures
        out@ == normalized_author(name@),
{
    let c = chars_of(name);
    match split_once_chars(&c, ',') {
        Some((last, first)) => {
            let f = trim_chars(&first);
            let l = trim_chars(&last);
            if f.len() > 0 && l.len() > 0 {
                let mut v = f;
                v.push(' ');
                extend_chars(&mut v, &l);
                return string_of(&v);
            }
        },
        None => {},
    }
    let t = trim_chars(&c);
    string_of(&t)
}

/// The title searched for: the query's, trimmed, when not empty; else the
/// book's own.
pub open spec fn search_title(query_title: Option<Seq<char>>, book_title: Seq<char>) -> Seq<char> {
    match query_title {
        Some(t) => if trim(t).len() > 0 {
            trim(t)
        } else {
            book_title
        },
        None => book_title,
    }
}

/// The author searched for: the query's, trimmed, when given (an empty one
/// means no author); else the book's primary author. Either way in the
/// "First Last" form.
pub open spec fn search_author(query_author: Option<Seq<char>>, book_author: Option<Seq<char>>) -> Option<
    Seq<char>,
> {
    let a = match query_author {
        Some(q) => if trim(q).len() > 0 {
            Some(trim(q))
        } else {
            None
        },
        None => book_author,
    };
    match a {
        Some(x) => Some(normalized_author(x)),
        None => None,
    }
}

/// The terms of a metadata search: refined terms from the query where given,
/// else the book's own title and primary author.
pub fn search_terms(query: &MetadataSearchQuery, book_title: String, book_author: Option<String>) -> (out: (
    String,
    Option<String>,
))
    ensures
        out.0@ == search_title(ostr(query.title), book_title@),
        ostr(out.1) == search_author(ostr(query.author), ostr(book_author)),
{
    let title = match &query.title {
        Some(t) => {
            let tt = trim_str(t.as_str());
            if tt.len() > 0 {
                string_of(&tt)
            } else {
                book_title
            }
        },
        None => book_title,
    };
    let author = match &query.author {
        Some(q) => {
            let tq = trim_str(q.as_str());
            if tq.len() > 0 {
                Some(string_of(&tq))
            } else {
                None
            }
        },
        None => book_author,
    };
    let normalized = match author {
        Some(a) => Some(normalize_author(a.as_str())),
        None => None,
    };
    (title, normalized)
}

/// Where the metadata applied to a book comes from.
pub enum ApplySource {
    /// The fields given in the request.
    Direct,
    /// The cached search result at this index.
    Cached(usize),
    /// The composite of all cached search results.
    Composite,
}

/// Decide where applied metadata comes from: the request's own fields when
/// any is given; else the cached result at `match_index`, which must exist;
/// else the composite of the cache.
pub fn apply_source(request: &ApplyMetadataRequest, cached_count: usize) -> (r: Result<
    ApplySource,
    AppError,
>)
    ensures
        (request.title is Some || request.description is Some || request.cover_url is Some
            || request.tags is Some) ==> r matches Ok(ApplySource::Direct),
        !(request.title is Some || request.description is Some || request.cover_url is Some
            || request.tags is Some) ==> match request.match_index {
            Some(i) => if i < cached_count {
                r matches Ok(ApplySource::Cached(j)) && j == i
            } else {
                r matches Err(e) && e matches AppError::BadRequest(m) && m@ == "match_index "@
                    + decimal(i as int) + " is out of range (have "@ + decimal(cached_count as int)
                    + " cached entries)"@
            },
            None => r matches Ok(ApplySource::Composite),
        },
{
    if request.title.is_some() || request.description.is_some() || request.cover_url.is_some()
        || request.tags.is_some() {
        return Ok(ApplySource::Direct);
    }
    match request.match_index {
        Some(i) => {
            if i < cached_count {
                Ok(ApplySource::Cached(i))
            } else {
                let mut v = chars_of("match_index ");
                let a = digits_exec(i as u64);
                extend_chars(&mut v, &a);
                extend_str(&mut v, " is out of range (have ");
                let b = digits_exec(cached_count as u64);
                extend_chars(&mut v, &b);
                extend_str(&mut v, " cached entries)");
                proof {
                    lemma_decimal_nat(i as int);
                    lemma_decimal_nat(cached_count as int);
                }
                Err(AppError::BadRequest(string_of(&v)))
            }
        },
        None => Ok(ApplySource::Composite),
    }
}

/// For a non-negative number, its decimal rendering is its digits.
proof fn lemma_decimal_nat(n: int)
    requires
        n >= 0,
    ensures
        decimal(n) == digits_of(n as nat),
{
}

/// The error when the composite of an empty cache is asked for.
pub fn no_cached_metadata() -> (e: AppError)
    ensures
        e matches AppError::BadRequest(m) && m@ == "no cached metadata to apply; run search first"@,
{
    AppError::BadRequest(string_from_str("no cached metadata to apply; run search first"))
}

/// Whether a book needs enrichment: it has no description, or an empty one.
pub fn needs_enrichment(description: &Option<String>) -> (r: bool)
    ensures
        r == match ostr(*description) {
            Some(d) => d.len() == 0,
            None => true,
        },
{
    match description {
        Some(d) => d.as_str().is_empty(),
        None => true,
    }
}

/// What a library-wide scan does for one book that needs enrichment, once
/// the providers were searched.
pub enum BulkScanStep {
    /// No provider returned a match: the book is reported with this error.
    NoResults(BulkScanBookError),
    /// The best composite has a description: it is stored as the book's
    /// override (the title is left alone; tags only when there are some).
    Apply { description: String, cover_url: Option<String>, tags: Option<Vec<String>> },
    /// The best composite has no description: nothing is stored.
    Skip,
}

/// The step for a book given how many matches the providers returned and
/// the best composite of the ranked matches.
pub fn bulk_scan_step(book_id: i64, title: &str, match_count: usize, composite: Option<BookMetadata>) -> (r:
    BulkScanStep)
    ensures
        match_count == 0 ==> (r matches BulkScanStep::NoResults(e) && e.book_id == book_id && e.title@ == title@
            && e.error@ == "no results from any provider"@),
        match_count > 0 ==> match composite {
            Some(c) => match c.description {
                Some(d) => r matches BulkScanStep::Apply { description, cover_url, tags } && description@ == d@
                    && ostr(cover_url) == ostr(c.cover_url) && (if c.categories@.len() == 0 {
                    tags is None
                } else {
                    tags matches Some(t) && strs(t@) == strs(c.categories@)
                }),
                None => r is Skip,
            },
            None => r is Skip,
        },
{
    if match_count == 0 {
        return BulkScanStep::NoResults(
            BulkScanBookError {
                book_id,
                title: string_from_str(title),
                error: string_from_str("no results from any provider"),
            },
        );
    }
    match composite {
        Some(c) => {
            let BookMetadata { description, cover_url, categories, .. } = c;
            match description {
                Some(d) => {
                    let tags = if categories.len() == 0 {
                        None
                    } else {
                        Some(categories)
                    };
                    BulkScanStep::Apply { description: d, cover_url, tags }
                },
                None => BulkScanStep::Skip,
            }
        },
        None => BulkScanStep::Skip,
    }
}

/// Record how storing a book's override went: one more enriched book, or
/// the book reported with the storage error's message.
pub fn note_bulk_override(summary: &mut BulkScanResponse, book_id: i64, title: &str, stored: Result<(), String>)
    requires
        old(summary).books_enriched < i64::MAX,
    ensures
        final(summary).library_id == old(summary).library_id,
        final(summary).books_missing_metadata == old(summary).books_missing_metadata,
        match stored {
            Ok(()) => final(summary).books_enriched == old(summary).books_enriched + 1 && final(summary).errors@
                == old(summary).errors@,
            Err(m) => final(summary).books_enriched == old(summary).books_enriched && final(summary).errors@.len()
                == old(summary).errors@.len() + 1 && final(summary).errors@.drop_last() == old(summary).errors@
                && final(summary).errors@.last().book_id == book_id && final(summary).errors@.last().title@
                == title@ && final(summary).errors@.last().error@ == m@,
        },
{
    match stored {
        Ok(()) => {
            summary.books_enriched = summary.books_enriched + 1;
        },
        Err(m) => {
            summary.errors.push(BulkScanBookError { book_id, title: string_from_str(title), error: m });
        },
    }
}

/// The JSON text `serde_json::to_string` writes for a list of strings.
pub uninterp spec fn json_of_strings(v: Seq<Seq<char>>) -> Seq<char>;

/// `serde_json::to_string` of a list of strings (which cannot fail). The
/// contract names the result.
#[verifier::external_body]
fn strings_json(v: &Vec<String>) -> (out: String)
    ensures
        out@ == json_of_strings(strs(v@)),
{
    serde_json::to_string(v).unwrap_or_default()
}

/// The `tags_json` an override stores for a match's categories: none when
/// there are no categories, else their JSON list.
pub fn categories_tags_json(categories: &Vec<String>) -> (r: Option<String>)
    ensures
        categories@.len() == 0 ==> r is None,
        categories@.len() > 0 ==> (r matches Some(j) && j@ == json_of_strings(strs(categories@))),
{
    if categories.len() == 0 {
        None
    } else {
        Some(strings_json(categories))
    }
}

/// The `tags_json` an override stores for tags given directly: their JSON
/// list, none when no tags are given.
pub fn direct_tags_json(tags: &Option<Vec<String>>) -> (r: Option<String>)
    ensures
        match tags {
            Some(t) => r matches Some(j) && j@ == json_of_strings(strs(t@)),
            None => r is None,
        },
{
    match tags {
        Some(t) => Some(strings_json(t)),
        None => None,
    }
}

} // verus!
