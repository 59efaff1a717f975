//! A reader's marks and preferences: highlights, bookmarks, pinned
//! libraries, and who may see a user's library access list.

use vstd::prelude::*;
use crate::acquisition_api::{blank, is_blank};
use crate::error::AppError;
use crate::text::{chars_of, extend_str, ostr, str_eq, string_from_str, string_of};

verus! {

// ---------------------------------------------------------------------------
// Highlights
// ---------------------------------------------------------------------------

/// Body of `POST /api/v1/books/{id}/highlights`.
pub struct CreateHighlightRequest {
    pub cfi_range: String,
    pub text_content: Option<String>,
    pub color: String,
    pub note: Option<String>,
    pub format: String,
}

/// The color of a highlight created without one.
pub fn default_color() -> (out: String)
    ensures
        out@ == "yellow"@,
{
    string_from_str("yellow")
}

/// The format of a highlight created without one.
pub fn default_format() -> (out: String)
    ensures
        out@ == "EPUB"@,
{
    string_from_str("EPUB")
}

/// Body of `PATCH /api/v1/highlights/{id}`.
pub struct UpdateHighlightRequest {
    pub color: Option<String>,
    pub note: Option<String>,
}

/// Query of `GET /api/v1/me/highlights`.
pub struct HighlightFilterQuery {
    pub book_id: Option<String>,
    pub color: Option<String>,
}

/// A highlight as shown.
pub struct HighlightResponse {
    pub id: String,
    pub user_id: String,
    pub book_id: String,
    pub format: String,
    pub cfi_range: String,
    pub text_content: Option<String>,
    pub color: String,
    pub note: Option<String>,
    pub created_at: String,
    pub updated_at: String,
}

/// The highlight colors.
pub open spec fn is_highlight_color(c: Seq<char>) -> bool {
    c == "yellow"@ || c == "green"@ || c == "blue"@ || c == "pink"@ || c == "purple"@
}

/// Whether a color is a highlight color.
fn highlight_color_exec(c: &str) -> (r: bool)
    ensures
        r == is_highlight_color(c@),
{
    str_eq(c, "yellow") || str_eq(c, "green") || str_eq(c, "blue") || str_eq(c, "pink") || str_eq(
        c,
        "purple",
    )
}

/// The refusal of a color: `Invalid color 'C'. Valid colors: ...` (or
/// `Invalid color filter 'C'...` for a listing filter).
pub open spec fn invalid_color_message(color: Seq<char>, filter: bool) -> Seq<char> {
    (if filter {
        "Invalid color filter '"@
    } else {
        "Invalid color '"@
    }) + color + "'. Valid colors: yellow, green, blue, pink, purple"@
}

/// Check a color.
pub fn check_highlight_color(color: &str, filter: bool) -> (r: Result<(), AppError>)
    ensures
        r is Ok <==> is_highlight_color(color@),
        r matches Err(e) ==> e matches AppError::BadRequest(m) && m@ == invalid_color_message(
            color@,
            filter,
        ),
{
    if highlight_color_exec(color) {
        return Ok(());
    }
    let mut v = if filter {
        chars_of("Invalid color filter '")
    } else {
        chars_of("Invalid color '")
    };
    extend_str(&mut v, color);
    extend_str(&mut v, "'. Valid colors: yellow, green, blue, pink, purple");
    Err(AppError::BadRequest(string_of(&v)))
}

/// Check a new highlight: a known color, then a range.
pub fn validate_create_highlight(request: &CreateHighlightRequest) -> (r: Result<(), AppError>)
    ensures
        r is Ok <==> is_highlight_color(request.color@) && !blank(request.cfi_range@),
        r matches Err(e) ==> e matches AppError::BadRequest(m) && m@ == if !is_highlight_color(
            request.color@,
        ) {
            invalid_color_message(request.color@, false)
        } else {
            "cfi_range must not be empty"@
        },
{
    check_highlight_color(request.color.as_str(), false)?;
    if is_blank(request.cfi_range.as_str()) {
        return Err(AppError::BadRequest(string_from_str("cfi_range must not be empty")));
    }
    Ok(())
}

/// Check an optional color (of an update, or of a listing filter).
pub fn check_optional_color(color: &Option<String>, filter: bool) -> (r: Result<(), AppError>)
    ensures
        r is Ok <==> (ostr(*color) matches Some(c) ==> is_highlight_color(c)),
        r matches Err(e) ==> e matches AppError::BadRequest(m) && m@ == invalid_color_message(
            ostr(*color).unwrap(),
            filter,
        ),
{
    match color {
        Some(c) => check_highlight_color(c.as_str(), filter),
        None => Ok(()),
    }
}

// ---------------------------------------------------------------------------
// Bookmarks
// ---------------------------------------------------------------------------

/// A bookmark.
pub struct Bookmark {
    pub id: String,
    pub book_id: String,
    pub locator: String,
    pub note: Option<String>,
    pub created_at: String,
}

/// Body of `POST /api/v1/books/:id/bookmarks`.
pub struct CreateBookmarkRequest {
    pub locator: String,
    pub note: Option<String>,
}

/// A reading position needs a format.
pub fn validate_progress_format(format: &str) -> (r: Result<(), AppError>)
    ensures
        r is Ok <==> !blank(format@),
        r matches Err(e) ==> e matches AppError::BadRequest(m) && m@ == "format must not be empty"@,
{
    if is_blank(format) {
        return Err(AppError::BadRequest(string_from_str("format must not be empty")));
    }
    Ok(())
}

// ---------------------------------------------------------------------------
// Pinned libraries
// ---------------------------------------------------------------------------

/// A pinned library as exchanged with the client.
pub struct PinnedLibraryDto {
    pub id: String,
    pub name: String,
    pub source_kind: String,
}

/// Body of `PUT /api/v1/me/pinned-libraries`.
pub struct SetPinnedLibrariesRequest {
    pub libraries: Vec<PinnedLibraryDto>,
}

/// The most libraries a user may pin.
pub const MAX_PINNED_LIBRARIES: usize = 10;

/// Check a new pin list: at most ten, each with an id and a name.
pub fn validate_pinned_libraries(request: &SetPinnedLibrariesRequest) -> (r: Result<(), AppError>)
    ensures
        r is Ok <==> (request.libraries@.len() <= 10 && forall|i: int|
            0 <= i < request.libraries@.len() ==> !blank((#[trigger] request.libraries@[i]).id@)
                && !blank(request.libraries@[i].name@)),
        r matches Err(e) ==> e matches AppError::BadRequest(m) && m@ == if request.libraries@.len()
            > 10 {
            "Cannot pin more than 10 libraries"@
        } else {
            "Pinned library id and name are required"@
        },
{
    if request.libraries.len() > MAX_PINNED_LIBRARIES {
        return Err(AppError::BadRequest(string_from_str("Cannot pin more than 10 libraries")));
    }
    let mut i: usize = 0;
    while i < request.libraries.len()
        invariant
            i <= request.libraries.len(),
            request.libraries@.len() <= 10,
            forall|j: int|
                0 <= j < i ==> !blank((#[trigger] request.libraries@[j]).id@) && !blank(
                    request.libraries@[j].name@,
                ),
        decreases request.libraries.len() - i,
    {
        if is_blank(request.libraries[i].id.as_str()) || is_blank(
            request.libraries[i].name.as_str(),
        ) {
            return Err(AppError::BadRequest(string_from_str("Pinned library id and name are required")));
        }
        i = i + 1;
    }
    Ok(())
}

// ---------------------------------------------------------------------------
// Library access lists
// ---------------------------------------------------------------------------

/// A user's library access list.
pub struct LibraryAccessResponse {
    pub user_id: String,
    /// The libraries the user may access; empty means all (unrestricted).
    pub library_ids: Vec<String>,
    pub is_restricted: bool,
}

/// Body of `PATCH /api/v1/users/{id}/library-access`.
pub struct SetLibraryAccessRequest {
    /// The libraries the user may access; an empty list means unrestricted.
    pub library_ids: Vec<String>,
}

/// Only the owner or the user themselves may see a user's access list.
pub fn check_view_library_access(is_owner: bool, user_id: &str, target_user_id: &str) -> (r: Result<
    (),
    AppError,
>)
    ensures
        r is Ok <==> (is_owner || user_id@ == target_user_id@),
        r matches Err(e) ==> e matches AppError::Forbidden(m) && m@ == "Insufficient permissions"@,
{
    if !is_owner && !str_eq(user_id, target_user_id) {
        return Err(AppError::Forbidden(string_from_str("Insufficient permissions")));
    }
    Ok(())
}

/// A user's access list as shown: no stored list means unrestricted.
pub fn library_access_response(target_user_id: String, accessible: Option<Vec<String>>) -> (out:
    LibraryAccessResponse)
    ensures
        out.user_id == target_user_id,
        out.is_restricted == accessible is Some,
        match accessible {
            Some(ids) => out.library_ids == ids,
            None => out.library_ids@.len() == 0,
        },
{
    match accessible {
        Some(ids) => LibraryAccessResponse { user_id: target_user_id, library_ids: ids, is_restricted: true },
        None => LibraryAccessResponse {
            user_id: target_user_id,
            library_ids: Vec::new(),
            is_restricted: false,
        },
    }
}

} // verus!
