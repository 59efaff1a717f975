//! Records the server keeps in its own database: users, the activity log and
//! WebDAV files. Reading and writing them is the caller's work; these are
//! the values handed over.

use vstd::prelude::*;

verus! {

/// A user as stored in the database with their permissions.
pub struct StoredUser {
    pub id: String,
    pub username: String,
    pub is_owner: bool,
    pub created_at: String,
    pub permissions: Vec<String>,
}

/// An activity log entry as stored in the database.
pub struct StoredActivityLog {
    pub id: i64,
    pub user_id: String,
    pub action: String,
    pub target_type: Option<String>,
    pub target_id: Option<String>,
    pub details_json: Option<String>,
    pub created_at: String,
}

/// A WebDAV virtual file as stored in the database.
pub struct StoredWebdavFile {
    pub user_id: String,
    pub path: String,
    pub content: Option<Vec<u8>>,
    pub content_type: String,
    pub size: i64,
    pub modified_at: String,
}

} // verus!
