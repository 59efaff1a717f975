use ironshelf::access::{progress_book_id, searchable_libraries};
use ironshelf::collections::{
    add_position, check_collection_owner, check_collection_visible, collection_name,
    updated_collection_name, CollectionChange, StoredCollection,
};
use ironshelf::error::AppError;
use ironshelf::reading::{
    check_review_access, move_direction, notification_listing, plan_review_update,
    validate_add_to_queue, validate_rating, validate_reading_goal, validate_reorder,
    validate_review_body, AddToQueueRequest, MoveQueueItemRequest, NotificationQuery,
    ReorderQueueRequest, SetRatingRequest, SetReadingGoalRequest, UpdateReviewRequest,
};

fn message(e: AppError) -> String {
    match e {
        AppError::BadRequest(m) | AppError::Forbidden(m) | AppError::NotFound(m) => m,
        _ => panic!("unexpected error kind"),
    }
}

fn collection(owner: &str, is_public: bool) -> StoredCollection {
    StoredCollection {
        id: "c1".to_string(),
        user_id: owner.to_string(),
        name: "Favourites".to_string(),
        description: None,
        is_public,
        created_at: "t".to_string(),
        updated_at: "t".to_string(),
    }
}

#[test]
fn collection_names() {
    assert_eq!(collection_name("  Sci-Fi ").ok(), Some("Sci-Fi".to_string()));
    assert_eq!(message(collection_name("   ").err().unwrap()), "collection name must not be empty");
    assert_eq!(updated_collection_name(&None).ok(), Some(None));
    assert_eq!(updated_collection_name(&Some(" x ".to_string())).ok(), Some(Some("x".to_string())));
    assert!(updated_collection_name(&Some("".to_string())).is_err());
}

#[test]
fn collection_visibility_and_ownership() {
    assert!(check_collection_visible(&collection("alice", false), "alice").is_ok());
    assert!(check_collection_visible(&collection("alice", true), "bob").is_ok());
    assert_eq!(
        message(check_collection_visible(&collection("alice", false), "bob").err().unwrap()),
        "collection not found"
    );
    assert!(check_collection_owner(&collection("alice", true), "alice", CollectionChange::Delete).is_ok());
    assert_eq!(
        message(check_collection_owner(&collection("alice", true), "bob", CollectionChange::AddBooks).err().unwrap()),
        "only the collection owner can add books"
    );
}

#[test]
fn positions() {
    assert_eq!(add_position(Some(4), 10).ok(), Some(4));
    assert_eq!(add_position(None, 10).ok(), Some(10));
    assert_eq!(message(add_position(Some(-1), 10).err().unwrap()), "position must not be negative");
}

#[test]
fn queue_checks() {
    assert!(validate_add_to_queue(&AddToQueueRequest { book_id: "1".to_string() }).is_ok());
    assert_eq!(
        message(validate_add_to_queue(&AddToQueueRequest { book_id: " ".to_string() }).err().unwrap()),
        "book_id is required"
    );
    assert_eq!(move_direction(&MoveQueueItemRequest { direction: "UP".to_string() }).ok(), Some("up".to_string()));
    assert_eq!(
        message(move_direction(&MoveQueueItemRequest { direction: "left".to_string() }).err().unwrap()),
        "direction must be 'up' or 'down'"
    );
    assert!(validate_reorder(&ReorderQueueRequest { order: vec!["a".to_string()] }).is_ok());
    assert_eq!(
        message(validate_reorder(&ReorderQueueRequest { order: vec![] }).err().unwrap()),
        "order must not be empty"
    );
}

#[test]
fn goals_and_ratings() {
    assert!(validate_reading_goal(&SetReadingGoalRequest { year: 2024, target: 12 }).is_ok());
    assert_eq!(
        message(validate_reading_goal(&SetReadingGoalRequest { year: 1999, target: 0 }).err().unwrap()),
        "target must be at least 1"
    );
    assert_eq!(
        message(validate_reading_goal(&SetReadingGoalRequest { year: 2101, target: 3 }).err().unwrap()),
        "year must be between 2000 and 2100"
    );
    assert!(validate_rating(&SetRatingRequest { rating: 10 }).is_ok());
    assert_eq!(
        message(validate_rating(&SetRatingRequest { rating: 11 }).err().unwrap()),
        "rating must be between 1 and 10"
    );
}

#[test]
fn reviews() {
    assert_eq!(message(validate_review_body("  ").err().unwrap()), "review body must not be empty");
    assert!(check_review_access("u1", "u1", false, true).is_ok());
    assert!(check_review_access("u1", "u2", true, false).is_ok());
    assert_eq!(
        message(check_review_access("u1", "u2", false, true).err().unwrap()),
        "You can only delete your own reviews"
    );
    assert_eq!(
        message(check_review_access("u1", "u2", false, false).err().unwrap()),
        "You can only edit your own reviews"
    );
    let plan = plan_review_update(
        "now",
        &UpdateReviewRequest { title: None, body: Some("Great".to_string()), contains_spoilers: Some(true) },
    )
    .ok()
    .unwrap();
    assert_eq!(plan.sql, "UPDATE user_reviews SET updated_at = ?, body = ?, contains_spoilers = ? WHERE id = ?");
    assert_eq!(plan.values, vec!["now".to_string(), "Great".to_string(), "1".to_string()]);
    assert!(plan_review_update(
        "now",
        &UpdateReviewRequest { title: None, body: Some(" ".to_string()), contains_spoilers: None }
    )
    .is_err());
}

#[test]
fn notification_limits() {
    assert_eq!(notification_listing(&NotificationQuery { unread: None, limit: None }), (false, 50));
    assert_eq!(notification_listing(&NotificationQuery { unread: Some(true), limit: Some(500) }), (true, 200));
    assert_eq!(notification_listing(&NotificationQuery { unread: Some(false), limit: Some(7) }), (false, 7));
}

#[test]
fn continue_reading_searches_allowed_libraries() {
    let ids = vec!["a".to_string(), "b".to_string(), "c".to_string()];
    assert_eq!(searchable_libraries(&ids, &None), vec![0, 1, 2]);
    assert_eq!(searchable_libraries(&ids, &Some(vec!["c".to_string(), "a".to_string()])), vec![0, 2]);
    assert!(searchable_libraries(&ids, &Some(Vec::new())).is_empty());
    assert_eq!(progress_book_id("42"), Some(42));
    assert_eq!(progress_book_id("-3"), Some(-3));
    assert_eq!(progress_book_id("abc"), None);
    assert_eq!(progress_book_id(""), None);
}
