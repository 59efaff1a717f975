//! The reader's own lists and opinions: reading queue, yearly goal, ratings,
//! reviews and notifications.

use vstd::prelude::*;
use crate::acquisition_api::{blank, is_blank};
use crate::error::AppError;
use crate::text::{
    chars_of, extend_str, lowercase, ostr, str_eq, string_from_str, string_of, strs, to_lowercase,
};

verus! {

// ---------------------------------------------------------------------------
// Reading queue
// ---------------------------------------------------------------------------

/// A queue item enriched with book metadata for the response.
pub struct QueueItemResponse {
    /// The queue entry ID (same as book_id for this table).
    pub id: String,
    pub book_id: String,
    pub position: i64,
    pub title: String,
    pub authors: Vec<String>,
    pub has_cover: bool,
    pub added_at: String,
}

/// Body of `POST /api/v1/me/queue`.
pub struct AddToQueueRequest {
    pub book_id: String,
}

/// Body of `PATCH /api/v1/me/queue/{book_id}/move`.
pub struct MoveQueueItemRequest {
    pub direction: String,
}

/// Body of `POST /api/v1/me/queue/reorder`.
pub struct ReorderQueueRequest {
    pub order: Vec<String>,
}

/// A book can be queued only by its id.
pub fn validate_add_to_queue(request: &AddToQueueRequest) -> (r: Result<(), AppError>)
    ensures
        r is Ok <==> !blank(request.book_id@),
        r matches Err(e) ==> e matches AppError::BadRequest(m) && m@ == "book_id is required"@,
{
    if is_blank(request.book_id.as_str()) {
        return Err(AppError::BadRequest(string_from_str("book_id is required")));
    }
    Ok(())
}

/// The direction of a move, lowercased: `up` or `down`.
pub fn move_direction(request: &MoveQueueItemRequest) -> (r: Result<String, AppError>)
    ensures
        r is Ok <==> (lowercase(request.direction@) == "up"@ || lowercase(request.direction@)
            == "down"@),
        r matches Ok(d) ==> d@ == lowercase(request.direction@),
        r matches Err(e) ==> e matches AppError::BadRequest(m) && m@
            == "direction must be 'up' or 'down'"@,
{
    let d = to_lowercase(request.direction.as_str());
    if !str_eq(d.as_str(), "up") && !str_eq(d.as_str(), "down") {
        return Err(AppError::BadRequest(string_from_str("direction must be 'up' or 'down'")));
    }
    Ok(d)
}

/// A reorder lists at least one book.
pub fn validate_reorder(request: &ReorderQueueRequest) -> (r: Result<(), AppError>)
    ensures
        r is Ok <==> request.order@.len() > 0,
        r matches Err(e) ==> e matches AppError::BadRequest(m) && m@ == "order must not be empty"@,
{
    if request.order.len() == 0 {
        return Err(AppError::BadRequest(string_from_str("order must not be empty")));
    }
    Ok(())
}

// ---------------------------------------------------------------------------
// Reading goal
// ---------------------------------------------------------------------------

/// Query of `GET /api/v1/me/reading-goal`.
pub struct ReadingGoalQuery {
    pub year: Option<i32>,
}

/// Body of `PUT /api/v1/me/reading-goal`.
pub struct SetReadingGoalRequest {
    pub year: i32,
    pub target: i32,
}

/// A goal is at least one book, for a year from 2000 to 2100.
pub fn validate_reading_goal(request: &SetReadingGoalRequest) -> (r: Result<(), AppError>)
    ensures
        r is Ok <==> (request.target >= 1 && 2000 <= request.year <= 2100),
        r matches Err(e) ==> e matches AppError::BadRequest(m) && m@ == if request.target < 1 {
            "target must be at least 1"@
        } else {
            "year must be between 2000 and 2100"@
        },
{
    if request.target < 1 {
        return Err(AppError::BadRequest(string_from_str("target must be at least 1")));
    }
    if request.year < 2000 || request.year > 2100 {
        return Err(AppError::BadRequest(string_from_str("year must be between 2000 and 2100")));
    }
    Ok(())
}

// ---------------------------------------------------------------------------
// Ratings and reviews
// ---------------------------------------------------------------------------

/// Body of `PUT /api/v1/books/{id}/rating`.
pub struct SetRatingRequest {
    pub rating: i32,
}

/// A rating is from 1 to 10.
pub fn validate_rating(request: &SetRatingRequest) -> (r: Result<(), AppError>)
    ensures
        r is Ok <==> 1 <= request.rating <= 10,
        r matches Err(e) ==> e matches AppError::BadRequest(m) && m@
            == "rating must be between 1 and 10"@,
{
    if request.rating < 1 || request.rating > 10 {
        return Err(AppError::BadRequest(string_from_str("rating must be between 1 and 10")));
    }
    Ok(())
}

/// A review as shown.
pub struct ReviewResponse {
    pub id: String,
    pub user_id: String,
    pub username: String,
    pub book_id: String,
    pub title: Option<String>,
    pub body: String,
    pub contains_spoilers: bool,
    pub created_at: String,
    pub updated_at: String,
}

/// Body of `POST /api/v1/books/{id}/reviews`.
pub struct CreateReviewRequest {
    pub title: Option<String>,
    pub body: String,
    pub contains_spoilers: bool,
}

/// Body of `PATCH /api/v1/reviews/{id}`.
pub struct UpdateReviewRequest {
    pub title: Option<String>,
    pub body: Option<String>,
    pub contains_spoilers: Option<bool>,
}

/// A review has a body.
pub fn validate_review_body(body: &str) -> (r: Result<(), AppError>)
    ensures
        r is Ok <==> !blank(body@),
        r matches Err(e) ==> e matches AppError::BadRequest(m) && m@
            == "review body must not be empty"@,
{
    if is_blank(body) {
        return Err(AppError::BadRequest(string_from_str("review body must not be empty")));
    }
    Ok(())
}

/// Only a review's author or the instance owner may edit or delete it.
pub fn check_review_access(
    review_user_id: &str,
    user_id: &str,
    is_owner: bool,
    deleting: bool,
) -> (r: Result<(), AppError>)
    ensures
        r is Ok <==> (review_user_id@ == user_id@ || is_owner),
        r matches Err(e) ==> e matches AppError::Forbidden(m) && m@ == if deleting {
            "You can only delete your own reviews"@
        } else {
            "You can only edit your own reviews"@
        },
{
    if !str_eq(review_user_id, user_id) && !is_owner {
        if deleting {
            return Err(AppError::Forbidden(string_from_str("You can only delete your own reviews")));
        } else {
            return Err(AppError::Forbidden(string_from_str("You can only edit your own reviews")));
        }
    }
    Ok(())
}

/// The statement and the values of a review update.
pub struct ReviewUpdate {
    pub sql: String,
    pub values: Vec<String>,
}

/// The statement of a review update: the update time is always set, then the
/// title, body and spoiler flag where given; the review id is bound last.
pub open spec fn review_update_sql(has_title: bool, has_body: bool, has_spoilers: bool) -> Seq<
    char,
> {
    "UPDATE user_reviews SET updated_at = ?"@ + (if has_title {
        ", title = ?"@
    } else {
        ""@
    }) + (if has_body {
        ", body = ?"@
    } else {
        ""@
    }) + (if has_spoilers {
        ", contains_spoilers = ?"@
    } else {
        ""@
    }) + " WHERE id = ?"@
}

/// The values bound to the update, in the order of its placeholders.
pub open spec fn review_update_values(now: Seq<char>, request: UpdateReviewRequest) -> Seq<
    Seq<char>,
> {
    seq![now] + (match ostr(request.title) {
        Some(t) => seq![t],
        None => seq![],
    }) + (match ostr(request.body) {
        Some(b) => seq![b],
        None => seq![],
    }) + (match request.contains_spoilers {
        Some(s) => seq![
            if s {
                "1"@
            } else {
                "0"@
            },
        ],
        None => seq![],
    })
}

/// Plan a review update: only the given fields change; a given body must not
/// be blank.
pub fn plan_review_update(now: &str, request: &UpdateReviewRequest) -> (r: Result<
    ReviewUpdate,
    AppError,
>)
    ensures
        r is Ok <==> (ostr(request.body) matches Some(b) ==> !blank(b)),
        r matches Ok(u) ==> u.sql@ == review_update_sql(
            request.title is Some,
            request.body is Some,
            request.contains_spoilers is Some,
        ) && strs(u.values@) == review_update_values(now@, *request),
        r matches Err(e) ==> e matches AppError::BadRequest(m) && m@
            == "review body must not be empty"@,
{
    let mut sql = chars_of("UPDATE user_reviews SET updated_at = ?");
    let mut values: Vec<String> = Vec::new();
    values.push(string_from_str(now));
    let ghost v0 = values@;
    assert(strs(v0) =~= seq![now@]);
    match &request.title {
        Some(t) => {
            extend_str(&mut sql, ", title = ?");
            values.push(t.clone());
        },
        None => {
            extend_str(&mut sql, "");
        },
    }
    let ghost v1 = values@;
    assert(strs(v1) =~= seq![now@] + match ostr(request.title) {
        Some(t) => seq![t],
        None => seq![],
    });
    match &request.body {
        Some(b) => {
            if is_blank(b.as_str()) {
                return Err(AppError::BadRequest(string_from_str("review body must not be empty")));
            }
            extend_str(&mut sql, ", body = ?");
            values.push(b.clone());
        },
        None => {
            extend_str(&mut sql, "");
        },
    }
    let ghost v2 = values@;
    assert(strs(v2) =~= strs(v1) + match ostr(request.body) {
        Some(b) => seq![b],
        None => seq![],
    });
    match request.contains_spoilers {
        Some(s) => {
            extend_str(&mut sql, ", contains_spoilers = ?");
            if s {
                values.push(string_from_str("1"));
            } else {
                values.push(string_from_str("0"));
            }
        },
        None => {
            extend_str(&mut sql, "");
        },
    }
    assert(strs(values@) =~= strs(v2) + match request.contains_spoilers {
        Some(s) => seq![
            if s {
                "1"@
            } else {
                "0"@
            },
        ],
        None => seq![],
    });
    extend_str(&mut sql, " WHERE id = ?");
    assert(sql@ =~= review_update_sql(
        request.title is Some,
        request.body is Some,
        request.contains_spoilers is Some,
    ));
    Ok(ReviewUpdate { sql: string_of(&sql), values })
}

// ---------------------------------------------------------------------------
// Notifications
// ---------------------------------------------------------------------------

/// A notification as stored in the database.
#[derive(Debug, Clone)]
pub struct StoredNotification {
    pub id: String,
    pub user_id: String,
    pub title: String,
    pub message: String,
    pub notification_type: String,
    pub is_read: bool,
    pub link: Option<String>,
    pub created_at: String,
}

/// Query of `GET /api/v1/notifications`.
pub struct NotificationQuery {
    pub unread: Option<bool>,
    pub limit: Option<i64>,
}

/// A notification as listed.
pub struct NotificationEntry {
    pub id: String,
    pub title: String,
    pub message: String,
    pub notification_type: String,
    pub is_read: bool,
    pub link: Option<String>,
    pub created_at: String,
}

/// The unread count.
pub struct UnreadCountResponse {
    pub unread: i64,
}

/// The listing asked for: whether only unread notifications, and how many at
/// most (50 by default, never more than 200).
pub fn notification_listing(query: &NotificationQuery) -> (r: (bool, i64))
    ensures
        r.0 == (query.unread == Some(true)),
        r.1 == match query.limit {
            Some(l) => if l < 200 {
                l
            } else {
                200
            },
            None => 50,
        },
{
    let unread = match query.unread {
        Some(u) => u,
        None => false,
    };
    let limit = match query.limit {
        Some(l) => if l < 200 {
            l
        } else {
            200
        },
        None => 50,
    };
    (unread, limit)
}

/// A stored notification as listed: every field but the owner carried over.
pub fn notification_entry(n: StoredNotification) -> (out: NotificationEntry)
    ensures
        out.id == n.id,
        out.title == n.title,
        out.message == n.message,
        out.notification_type == n.notification_type,
        out.is_read == n.is_read,
        out.link == n.link,
        out.created_at == n.created_at,
{
    NotificationEntry {
        id: n.id,
        title: n.title,
        message: n.message,
        notification_type: n.notification_type,
        is_read: n.is_read,
        link: n.link,
        created_at: n.created_at,
    }
}

} // verus!
