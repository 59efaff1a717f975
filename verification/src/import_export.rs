//! Data portability: the rules by which an exported document is merged back
//! into a user's data, and by which library configurations are restored.
//!
//! The database reads and writes are done by the caller; these functions
//! decide, for each entry, what happens to it, and count the outcomes.

use vstd::prelude::*;
use crate::error::AppError;
use crate::text::{chars_eq, chars_of, decimal, decimal_i64, extend_chars, extend_str, str_eq, string_of, trim, trim_str};

verus! {

/// A library as stored in the database.
#[derive(Debug, Clone)]
pub struct StoredLibrary {
    pub id: String,
    pub name: String,
    pub library_type: String,
    pub source_kind: String,
    pub path: String,
    pub options_json: Option<String>,
    pub created_at: String,
}

/// Exported bookmark.
#[derive(Clone)]
pub struct ExportedBookmark {
    pub book_id: String,
    pub locator: String,
    pub note: Option<String>,
    pub created_at: String,
}

/// Exported collection with its book references.
#[derive(Clone)]
pub struct ExportedCollection {
    pub name: String,
    pub description: Option<String>,
    pub is_public: bool,
    pub books: Vec<ExportedCollectionBook>,
}

/// A book entry within an exported collection.
#[derive(Clone)]
pub struct ExportedCollectionBook {
    pub book_id: String,
    pub position: i64,
}

/// The counts an import answers with.
pub struct ImportResult {
    pub reading_progress_upserted: u64,
    pub bookmarks_inserted: u64,
    pub bookmarks_skipped_duplicate: u64,
    pub collections_created: u64,
    pub collections_merged: u64,
    pub collection_books_added: u64,
}

/// The counts a library configuration import answers with.
pub struct LibraryConfigImportResult {
    pub libraries_created: u64,
    pub libraries_skipped_duplicate: u64,
}

/// A document version other than 1 is refused, naming what it is.
pub fn check_document_version(version: u32, library_config: bool) -> (r: Result<(), AppError>)
    ensures
        r is Ok <==> version == 1,
        r matches Err(e) ==> e matches AppError::BadRequest(m) && m@ == (if library_config {
            "unsupported library config version: "@
        } else {
            "unsupported export version: "@
        }) + decimal(version as int) + " (expected 1)"@,
{
    if version == 1 {
        return Ok(());
    }
    let mut v = if library_config {
        chars_of("unsupported library config version: ")
    } else {
        chars_of("unsupported export version: ")
    };
    let d = decimal_i64(version as i64);
    extend_chars(&mut v, &d);
    extend_str(&mut v, " (expected 1)");
    Err(AppError::BadRequest(string_of(&v)))
}

/// Whether `a` comes at or after `b` in the order of strings (code point by
/// code point; a prefix comes first).
pub open spec fn text_at_or_after(a: Seq<char>, b: Seq<char>) -> bool
    decreases a.len(),
{
    if b.len() == 0 {
        true
    } else if a.len() == 0 {
        false
    } else if a[0] != b[0] {
        a[0] > b[0]
    } else {
        text_at_or_after(a.drop_first(), b.drop_first())
    }
}

/// Whether `a >= b` for strings, computed.
fn at_or_after(a: &Vec<char>, b: &Vec<char>) -> (r: bool)
    ensures
        r == text_at_or_after(a@, b@),
{
    let mut i: usize = 0;
    assert(a@.skip(0) =~= a@);
    assert(b@.skip(0) =~= b@);
    while i < a.len() && i < b.len() && a[i] == b[i]
        invariant
            i <= a.len(),
            i <= b.len(),
            text_at_or_after(a@, b@) == text_at_or_after(a@.skip(i as int), b@.skip(i as int)),
        decreases a.len() - i,
    {
        assert(a@.skip(i as int).drop_first() =~= a@.skip(i + 1));
        assert(b@.skip(i as int).drop_first() =~= b@.skip(i + 1));
        i = i + 1;
    }
    if i == b.len() {
        assert(b@.skip(i as int).len() == 0);
        true
    } else if i == a.len() {
        assert(a@.skip(i as int).len() == 0);
        false
    } else {
        assert(a@.skip(i as int)[0] == a@[i as int]);
        assert(b@.skip(i as int)[0] == b@[i as int]);
        a[i] > b[i]
    }
}

/// Whether `a` comes strictly after `b` in the order of strings.
pub open spec fn text_after(a: Seq<char>, b: Seq<char>) -> bool {
    text_at_or_after(a, b) && a != b
}

/// Whether an imported reading position replaces the stored one: when there
/// is none, or when the import's timestamp is newer than the stored one.
pub fn progress_import_wins(incoming_updated_at: &str, existing_updated_at: Option<&str>) -> (r:
    bool)
    ensures
        r == match existing_updated_at {
            None => true,
            Some(e) => text_after(incoming_updated_at@, e@),
        },
{
    match existing_updated_at {
        None => true,
        Some(e) => {
            let a = chars_of(incoming_updated_at);
            let b = chars_of(e);
            at_or_after(&a, &b) && !chars_eq(&a, &b)
        },
    }
}

/// The name an imported collection is merged under: its trimmed name;
/// `None` (the collection is skipped) when that is empty.
pub fn import_collection_name(name: &str) -> (r: Option<String>)
    ensures
        trim(name@).len() == 0 <==> r is None,
        r matches Some(n) ==> n@ == trim(name@),
{
    let t = trim_str(name);
    if t.len() == 0 {
        None
    } else {
        Some(string_of(&t))
    }
}

impl ImportResult {
    /// Nothing imported yet.
    pub fn new() -> (r: ImportResult)
        ensures
            r.reading_progress_upserted == 0,
            r.bookmarks_inserted == 0,
            r.bookmarks_skipped_duplicate == 0,
            r.collections_created == 0,
            r.collections_merged == 0,
            r.collection_books_added == 0,
    {
        ImportResult {
            reading_progress_upserted: 0,
            bookmarks_inserted: 0,
            bookmarks_skipped_duplicate: 0,
            collections_created: 0,
            collections_merged: 0,
            collection_books_added: 0,
        }
    }

    /// Count a reading position that was written.
    pub fn note_progress_upserted(&mut self)
        requires
            old(self).reading_progress_upserted < u64::MAX,
        ensures
            final(self).reading_progress_upserted == old(self).reading_progress_upserted + 1,
            final(self).bookmarks_inserted == old(self).bookmarks_inserted,
            final(self).bookmarks_skipped_duplicate == old(self).bookmarks_skipped_duplicate,
            final(self).collections_created == old(self).collections_created,
            final(self).collections_merged == old(self).collections_merged,
            final(self).collection_books_added == old(self).collection_books_added,
    {
        self.reading_progress_upserted = self.reading_progress_upserted + 1;
    }

    /// Decide on a bookmark: it is inserted unless one with the same book and
    /// locator exists (`duplicates` of them); the outcome is counted. Whether
    /// to insert it is returned.
    pub fn note_bookmark(&mut self, duplicates: i64) -> (insert: bool)
        requires
            old(self).bookmarks_inserted < u64::MAX,
            old(self).bookmarks_skipped_duplicate < u64::MAX,
        ensures
            insert == (duplicates <= 0),
            final(self).bookmarks_inserted == old(self).bookmarks_inserted + (if insert {
                1int
            } else {
                0int
            }),
            final(self).bookmarks_skipped_duplicate == old(self).bookmarks_skipped_duplicate + (
            if insert {
                0int
            } else {
                1int
            }),
            final(self).reading_progress_upserted == old(self).reading_progress_upserted,
            final(self).collections_created == old(self).collections_created,
            final(self).collections_merged == old(self).collections_merged,
            final(self).collection_books_added == old(self).collection_books_added,
    {
        if duplicates > 0 {
            self.bookmarks_skipped_duplicate = self.bookmarks_skipped_duplicate + 1;
            false
        } else {
            self.bookmarks_inserted = self.bookmarks_inserted + 1;
            true
        }
    }

    /// Count a collection: merged into an existing one of the same name, or
    /// created.
    pub fn note_collection(&mut self, existed: bool)
        requires
            old(self).collections_created < u64::MAX,
            old(self).collections_merged < u64::MAX,
        ensures
            final(self).collections_merged == old(self).collections_merged + (if existed {
                1int
            } else {
                0int
            }),
            final(self).collections_created == old(self).collections_created + (if existed {
                0int
            } else {
                1int
            }),
            final(self).reading_progress_upserted == old(self).reading_progress_upserted,
            final(self).bookmarks_inserted == old(self).bookmarks_inserted,
            final(self).bookmarks_skipped_duplicate == old(self).bookmarks_skipped_duplicate,
            final(self).collection_books_added == old(self).collection_books_added,
    {
        if existed {
            self.collections_merged = self.collections_merged + 1;
        } else {
            self.collections_created = self.collections_created + 1;
        }
    }

    /// Decide on a book of an imported collection: added unless the
    /// collection already holds it (`present` times); additions are counted.
    /// Whether to add it is returned.
    pub fn note_collection_book(&mut self, present: i64) -> (add: bool)
        requires
            old(self).collection_books_added < u64::MAX,
        ensures
            add == (present <= 0),
            final(self).collection_books_added == old(self).collection_books_added + (if add {
                1int
            } else {
                0int
            }),
            final(self).reading_progress_upserted == old(self).reading_progress_upserted,
            final(self).bookmarks_inserted == old(self).bookmarks_inserted,
            final(self).bookmarks_skipped_duplicate == old(self).bookmarks_skipped_duplicate,
            final(self).collections_created == old(self).collections_created,
            final(self).collections_merged == old(self).collections_merged,
    {
        if present > 0 {
            false
        } else {
            self.collection_books_added = self.collection_books_added + 1;
            true
        }
    }
}

/// Whether a library with this name and path already exists.
pub open spec fn library_exists(existing: Seq<StoredLibrary>, name: Seq<char>, path: Seq<char>) -> bool {
    exists|i: int| 0 <= i < existing.len() && (#[trigger] existing[i]).name@ == name
        && existing[i].path@ == path
}

/// Whether an imported library configuration duplicates an existing library
/// (same name and same path).
pub fn is_duplicate_library(existing: &Vec<StoredLibrary>, name: &str, path: &str) -> (r: bool)
    ensures
        r == library_exists(existing@, name@, path@),
{
    let mut i: usize = 0;
    while i < existing.len()
        invariant
            i <= existing.len(),
            forall|j: int| 0 <= j < i ==> !((#[trigger] existing@[j]).name@ == name@
                && existing@[j].path@ == path@),
        decreases existing.len() - i,
    {
        if str_eq(existing[i].name.as_str(), name) && str_eq(existing[i].path.as_str(), path) {
            assert(existing@[i as int].name@ == name@);
            return true;
        }
        i = i + 1;
    }
    false
}

} // verus!
