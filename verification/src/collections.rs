//! Collections (reading lists): who may see and change one, and the checks
//! on what is written to it.

use vstd::prelude::*;
use crate::error::AppError;
use crate::text::{ostr, str_eq, string_from_str, string_of, trim, trim_str};

verus! {

/// A collection (reading list) as stored in the database.
#[derive(Debug, Clone)]
pub struct StoredCollection {
    pub id: String,
    pub user_id: String,
    pub name: String,
    pub description: Option<String>,
    pub is_public: bool,
    pub created_at: String,
    pub updated_at: String,
}

/// A book entry within a collection, with its position.
#[derive(Debug, Clone)]
pub struct StoredCollectionBook {
    pub collection_id: String,
    pub book_id: String,
    pub position: i64,
    pub added_at: String,
}

/// A collection as listed.
pub struct CollectionSummary {
    pub id: String,
    pub user_id: String,
    pub name: String,
    pub description: Option<String>,
    pub is_public: bool,
    pub created_at: String,
    pub updated_at: String,
}

/// A collection with its books.
pub struct CollectionDetail {
    pub summary: CollectionSummary,
    pub books: Vec<CollectionBookEntry>,
}

/// A book of a collection as shown.
pub struct CollectionBookEntry {
    pub book_id: String,
    pub position: i64,
    pub added_at: String,
}

/// What a creation answers.
pub struct CreateCollectionResponse {
    pub id: String,
    pub name: String,
}

/// Body of `POST /api/v1/collections`.
pub struct CreateCollectionRequest {
    pub name: String,
    pub description: Option<String>,
    pub is_public: bool,
}

/// Body of `PATCH /api/v1/collections/:id`.
pub struct UpdateCollectionRequest {
    pub name: Option<String>,
    pub description: Option<String>,
    pub is_public: Option<bool>,
}

/// Body of `POST /api/v1/collections/:id/books`.
pub struct AddBookRequest {
    pub book_id: String,
    pub position: Option<i64>,
}

/// A collection name: trimmed, and not empty.
pub fn collection_name(name: &str) -> (r: Result<String, AppError>)
    ensures
        trim(name@).len() > 0 <==> r is Ok,
        r matches Ok(n) ==> n@ == trim(name@),
        r matches Err(e) ==> e matches AppError::BadRequest(m) && m@
            == "collection name must not be empty"@,
{
    let t = trim_str(name);
    if t.len() == 0 {
        return Err(AppError::BadRequest(string_from_str("collection name must not be empty")));
    }
    Ok(string_of(&t))
}

/// The new name of an update, if any: trimmed, and not empty.
pub fn updated_collection_name(name: &Option<String>) -> (r: Result<Option<String>, AppError>)
    ensures
        r is Ok <==> (ostr(*name) matches Some(n) ==> trim(n).len() > 0),
        r matches Ok(v) ==> ostr(v) == match ostr(*name) {
            Some(n) => Some(trim(n)),
            None => None,
        },
        r matches Err(e) ==> e matches AppError::BadRequest(m) && m@
            == "collection name must not be empty"@,
{
    match name {
        None => Ok(None),
        Some(n) => match collection_name(n.as_str()) {
            Ok(t) => Ok(Some(t)),
            Err(e) => Err(e),
        },
    }
}

/// Whether a user may see a collection: its owner always, others when public.
pub open spec fn can_view(collection: StoredCollection, user_id: Seq<char>) -> bool {
    collection.user_id@ == user_id || collection.is_public
}

/// A collection that the user may not see is answered as not found.
pub fn check_collection_visible(collection: &StoredCollection, user_id: &str) -> (r: Result<
    (),
    AppError,
>)
    ensures
        r is Ok <==> can_view(*collection, user_id@),
        r matches Err(e) ==> e matches AppError::NotFound(m) && m@ == "collection"@ + " not found"@,
{
    if !str_eq(collection.user_id.as_str(), user_id) && !collection.is_public {
        return Err(AppError::not_found("collection"));
    }
    Ok(())
}

/// What a user asks to do to a collection.
#[derive(Clone, Copy, PartialEq, Eq, Structural)]
pub enum CollectionChange {
    Update,
    Delete,
    AddBooks,
    RemoveBooks,
}

/// The refusal shown when someone else than the owner attempts a change.
pub open spec fn not_owner_message(change: CollectionChange) -> Seq<char> {
    match change {
        CollectionChange::Update => "only the collection owner can update it"@,
        CollectionChange::Delete => "only the collection owner can delete it"@,
        CollectionChange::AddBooks => "only the collection owner can add books"@,
        CollectionChange::RemoveBooks => "only the collection owner can remove books"@,
    }
}

/// Only the collection's owner may change it.
pub fn check_collection_owner(
    collection: &StoredCollection,
    user_id: &str,
    change: CollectionChange,
) -> (r: Result<(), AppError>)
    ensures
        r is Ok <==> collection.user_id@ == user_id@,
        r matches Err(e) ==> e matches AppError::Forbidden(m) && m@ == not_owner_message(change),
{
    if !str_eq(collection.user_id.as_str(), user_id) {
        let m = match change {
            CollectionChange::Update => string_from_str("only the collection owner can update it"),
            CollectionChange::Delete => string_from_str("only the collection owner can delete it"),
            CollectionChange::AddBooks => string_from_str("only the collection owner can add books"),
            CollectionChange::RemoveBooks => string_from_str(
                "only the collection owner can remove books",
            ),
        };
        return Err(AppError::Forbidden(m));
    }
    Ok(())
}

/// The position a book is added at: the requested one (which must not be
/// negative), else the end of the collection.
pub fn add_position(requested: Option<i64>, existing_count: usize) -> (r: Result<i64, AppError>)
    requires
        existing_count <= i64::MAX,
    ensures
        match requested {
            Some(p) => if p < 0 {
                r matches Err(e) && e matches AppError::BadRequest(m) && m@
                    == "position must not be negative"@
            } else {
                r == Ok::<i64, AppError>(p)
            },
            None => r == Ok::<i64, AppError>(existing_count as i64),
        },
{
    match requested {
        Some(p) => {
            if p < 0 {
                return Err(AppError::BadRequest(string_from_str("position must not be negative")));
            }
            Ok(p)
        },
        None => Ok(existing_count as i64),
    }
}

/// A stored collection as listed: every field carried over.
pub fn collection_summary(c: StoredCollection) -> (out: CollectionSummary)
    ensures
        out.id == c.id,
        out.user_id == c.user_id,
        out.name == c.name,
        out.description == c.description,
        out.is_public == c.is_public,
        out.created_at == c.created_at,
        out.updated_at == c.updated_at,
{
    CollectionSummary {
        id: c.id,
        user_id: c.user_id,
        name: c.name,
        description: c.description,
        is_public: c.is_public,
        created_at: c.created_at,
        updated_at: c.updated_at,
    }
}

/// A stored book entry as shown: book, position and date carried over.
pub fn collection_book_entry(b: StoredCollectionBook) -> (out: CollectionBookEntry)
    ensures
        out.book_id == b.book_id,
        out.position == b.position,
        out.added_at == b.added_at,
{
    CollectionBookEntry { book_id: b.book_id, position: b.position, added_at: b.added_at }
}

} // verus!
