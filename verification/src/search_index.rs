//! The values exchanged with the full-text book index: what is indexed for
//! each book, and how an index operation fails.

use vstd::prelude::*;
use crate::text::{
    chars_of, decimal, decimal_i64, extend_str, ostr, parse_i64, parse_in_range, string_from_str, string_of,
};

verus! {

/// Entry for batch indexing during a rebuild operation.
pub struct BookIndexEntry {
    pub book_id: i64,
    pub title: String,
    pub author_names: String,
    pub series_name: Option<String>,
    pub tags: String,
    pub description: Option<String>,
    pub library_id: String,
}

/// Errors that can occur during search index operations.
pub enum SearchIndexError {
    Io(String),
    Tantivy(String),
    Query(String),
}

/// The message of a search index error.
pub open spec fn search_index_error_message(e: SearchIndexError) -> Seq<char> {
    match e {
        SearchIndexError::Io(m) => "IO error: "@ + m@,
        SearchIndexError::Tantivy(m) => "tantivy error: "@ + m@,
        SearchIndexError::Query(m) => "query parse error: "@ + m@,
    }
}

impl SearchIndexError {
    /// The human-readable message of the error.
    pub fn message(&self) -> (out: String)
        ensures
            out@ == search_index_error_message(*self),
    {
        let mut chars: Vec<char> = Vec::new();
        match self {
            SearchIndexError::Io(m) => {
                extend_str(&mut chars, "IO error: ");
                extend_str(&mut chars, m.as_str());
            },
            SearchIndexError::Tantivy(m) => {
                extend_str(&mut chars, "tantivy error: ");
                extend_str(&mut chars, m.as_str());
            },
            SearchIndexError::Query(m) => {
                extend_str(&mut chars, "query parse error: ");
                extend_str(&mut chars, m.as_str());
            },
        }
        string_of(&chars)
    }
}

/// The text fields a book is indexed with: its id in decimal, and an empty
/// text for a missing series or description.
pub struct IndexedDocument {
    pub book_id: String,
    pub title: String,
    pub author_names: String,
    pub series_name: String,
    pub tags: String,
    pub description: String,
    pub library_id: String,
}

/// A text, or the empty text.
pub open spec fn text_or_empty(v: Option<Seq<char>>) -> Seq<char> {
    match v {
        Some(t) => t,
        None => Seq::empty(),
    }
}

/// The document an index entry is stored as.
pub fn entry_document(entry: &BookIndexEntry) -> (d: IndexedDocument)
    ensures
        d.book_id@ == decimal(entry.book_id as int),
        d.title@ == entry.title@,
        d.author_names@ == entry.author_names@,
        d.series_name@ == text_or_empty(ostr(entry.series_name)),
        d.tags@ == entry.tags@,
        d.description@ == text_or_empty(ostr(entry.description)),
        d.library_id@ == entry.library_id@,
{
    proof {
        reveal_strlit("");
    }
    IndexedDocument {
        book_id: string_of(&decimal_i64(entry.book_id)),
        title: entry.title.clone(),
        author_names: entry.author_names.clone(),
        series_name: match &entry.series_name {
            Some(s) => s.clone(),
            None => string_from_str(""),
        },
        tags: entry.tags.clone(),
        description: match &entry.description {
            Some(s) => s.clone(),
            None => string_from_str(""),
        },
        library_id: entry.library_id.clone(),
    }
}

/// A search hit as read back from its stored document (its relevance score
/// is kept by the caller).
pub struct SearchHit {
    pub book_id: i64,
    pub title: String,
    pub author_names: String,
    pub library_id: String,
}

/// The book id a stored id text stands for: the text parsed as an `i64`
/// (`0` when missing), `0` when it does not parse.
pub open spec fn hit_book_id(stored: Option<Seq<char>>) -> i64 {
    let t = match stored {
        Some(s) => s,
        None => "0"@,
    };
    match parse_in_range(t, true, i64::MIN as int, i64::MAX as int) {
        Some(v) => v as i64,
        None => 0,
    }
}

/// A hit from the stored fields of its document; a missing text field reads
/// as empty.
pub fn search_hit(book_id: Option<&str>, title: Option<&str>, author_names: Option<&str>, library_id: Option<&str>) -> (h:
    SearchHit)
    ensures
        h.book_id == hit_book_id(
            match book_id {
                Some(s) => Some(s@),
                None => None,
            },
        ),
        h.title@ == text_or_empty(
            match title {
                Some(s) => Some(s@),
                None => None,
            },
        ),
        h.author_names@ == text_or_empty(
            match author_names {
                Some(s) => Some(s@),
                None => None,
            },
        ),
        h.library_id@ == text_or_empty(
            match library_id {
                Some(s) => Some(s@),
                None => None,
            },
        ),
{
    proof {
        reveal_strlit("");
    }
    let id_text = match book_id {
        Some(s) => chars_of(s),
        None => chars_of("0"),
    };
    let id = match parse_i64(&id_text) {
        Some(v) => v,
        None => 0,
    };
    SearchHit {
        book_id: id,
        title: string_from_str(title.unwrap_or("")),
        author_names: string_from_str(author_names.unwrap_or("")),
        library_id: string_from_str(library_id.unwrap_or("")),
    }
}

} // verus!
