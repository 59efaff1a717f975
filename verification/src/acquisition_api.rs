//! Request and response bodies of the acquisition API (indexers, download
//! clients, wanted items, downloads, search), with the checks each request
//! passes before the database is touched.

use vstd::prelude::*;
use crate::auth::AuthUser;
use crate::error::AppError;
use crate::text::{
    chars_of, extend_str, ostr, starts_with, starts_with_str, str_eq, string_from_str, string_of,
    trim, trim_str,
};

verus! {

// ---------------------------------------------------------------------------
// Shared checks
// ---------------------------------------------------------------------------

/// Whether a text is empty once trimmed.
pub open spec fn blank(s: Seq<char>) -> bool {
    trim(s).len() == 0
}

/// Whether a text is empty once trimmed, computed.
pub fn is_blank(s: &str) -> (r: bool)
    ensures
        r == blank(s@),
{
    trim_str(s).len() == 0
}

/// Whether `e` is a 400 error with the message `m`.
pub open spec fn bad_request_with(e: AppError, m: Seq<char>) -> bool {
    e matches AppError::BadRequest(x) && x@ == m
}

/// A 400 error with the message `m`.
pub fn bad_request(m: &str) -> (e: AppError)
    ensures
        bad_request_with(e, m@),
{
    AppError::BadRequest(string_from_str(m))
}

/// Whether a URL starts with `http://` or `https://`.
pub open spec fn is_http_url(u: Seq<char>) -> bool {
    starts_with(u, "http://"@) || starts_with(u, "https://"@)
}

/// The message `Invalid FIELD: VALUE. Valid types: LIST`.
pub open spec fn invalid_type_message(field: Seq<char>, value: Seq<char>, list: Seq<char>) -> Seq<
    char,
> {
    "Invalid "@ + field + ": "@ + value + ". Valid types: "@ + list
}

/// A 400 error `Invalid FIELD: VALUE. Valid types: LIST`.
fn invalid_type(field: &str, value: &str, list: &str) -> (e: AppError)
    ensures
        bad_request_with(e, invalid_type_message(field@, value@, list@)),
{
    let mut v = chars_of("Invalid ");
    extend_str(&mut v, field);
    extend_str(&mut v, ": ");
    extend_str(&mut v, value);
    extend_str(&mut v, ". Valid types: ");
    extend_str(&mut v, list);
    AppError::BadRequest(string_of(&v))
}

// ---------------------------------------------------------------------------
// Type names
// ---------------------------------------------------------------------------

/// The indexer types the server speaks.
pub open spec fn is_indexer_type(t: Seq<char>) -> bool {
    t == "torznab"@ || t == "newznab"@ || t == "rss"@ || t == "custom"@
}

/// Reject an unknown indexer type.
pub fn validate_indexer_type(indexer_type: &str) -> (r: Result<(), AppError>)
    ensures
        r is Ok <==> is_indexer_type(indexer_type@),
        r matches Err(e) ==> bad_request_with(
            e,
            invalid_type_message("indexer_type"@, indexer_type@, "torznab, newznab, rss, custom"@),
        ),
{
    if str_eq(indexer_type, "torznab") || str_eq(indexer_type, "newznab") || str_eq(
        indexer_type,
        "rss",
    ) || str_eq(indexer_type, "custom") {
        Ok(())
    } else {
        Err(invalid_type("indexer_type", indexer_type, "torznab, newznab, rss, custom"))
    }
}

/// The download client types the server knows.
pub open spec fn is_client_type(t: Seq<char>) -> bool {
    t == "qbittorrent"@ || t == "transmission"@ || t == "deluge"@ || t == "rtorrent"@ || t
        == "direct"@
}

/// Reject an unknown download client type.
pub fn validate_client_type(client_type: &str) -> (r: Result<(), AppError>)
    ensures
        r is Ok <==> is_client_type(client_type@),
        r matches Err(e) ==> bad_request_with(
            e,
            invalid_type_message(
                "client_type"@,
                client_type@,
                "qbittorrent, transmission, deluge, rtorrent, direct"@,
            ),
        ),
{
    if str_eq(client_type, "qbittorrent") || str_eq(client_type, "transmission") || str_eq(
        client_type,
        "deluge",
    ) || str_eq(client_type, "rtorrent") || str_eq(client_type, "direct") {
        Ok(())
    } else {
        Err(
            invalid_type(
                "client_type",
                client_type,
                "qbittorrent, transmission, deluge, rtorrent, direct",
            ),
        )
    }
}

/// The kinds of wanted items.
pub open spec fn is_item_type(t: Seq<char>) -> bool {
    t == "book"@ || t == "author"@ || t == "series"@
}

/// Reject an unknown wanted-item type.
pub fn validate_item_type(item_type: &str) -> (r: Result<(), AppError>)
    ensures
        r is Ok <==> is_item_type(item_type@),
        r matches Err(e) ==> bad_request_with(
            e,
            invalid_type_message("item_type"@, item_type@, "book, author, series"@),
        ),
{
    if str_eq(item_type, "book") || str_eq(item_type, "author") || str_eq(item_type, "series") {
        Ok(())
    } else {
        Err(invalid_type("item_type", item_type, "book, author, series"))
    }
}

// ---------------------------------------------------------------------------
// Indexers
// ---------------------------------------------------------------------------

/// An indexer as the API shows it.
pub struct IndexerResponse {
    pub id: String,
    pub name: String,
    pub indexer_type: String,
    pub url: String,
    pub categories: Option<String>,
    pub is_enabled: bool,
    pub priority: i32,
    pub search_interval_minutes: i32,
    pub last_searched_at: Option<String>,
    pub created_at: String,
}

/// Body of `POST /api/v1/indexers`.
pub struct CreateIndexerRequest {
    pub name: String,
    pub indexer_type: String,
    pub url: String,
    pub api_key: Option<String>,
    pub categories: Option<String>,
    pub priority: Option<i32>,
    pub search_interval_minutes: Option<i32>,
}

/// The outcome of checking a new indexer: the first failing check, in the
/// order type, name, URL present, URL scheme.
pub open spec fn create_indexer_check(
    indexer_type: Seq<char>,
    name: Seq<char>,
    url: Seq<char>,
) -> Option<Seq<char>> {
    if !is_indexer_type(indexer_type) {
        Some(invalid_type_message("indexer_type"@, indexer_type, "torznab, newznab, rss, custom"@))
    } else if blank(name) {
        Some("Name is required"@)
    } else if blank(url) {
        Some("URL is required"@)
    } else if !is_http_url(url) {
        Some("URL must start with http:// or https://"@)
    } else {
        None
    }
}

/// Check a new indexer before it is stored.
pub fn validate_create_indexer(body: &CreateIndexerRequest) -> (r: Result<(), AppError>)
    ensures
        match create_indexer_check(body.indexer_type@, body.name@, body.url@) {
            None => r is Ok,
            Some(m) => r matches Err(e) && bad_request_with(e, m),
        },
{
    validate_indexer_type(body.indexer_type.as_str())?;
    if is_blank(body.name.as_str()) {
        return Err(bad_request("Name is required"));
    }
    if is_blank(body.url.as_str()) {
        return Err(bad_request("URL is required"));
    }
    if !starts_with_str(&chars_of(body.url.as_str()), "http://") && !starts_with_str(
        &chars_of(body.url.as_str()),
        "https://",
    ) {
        return Err(bad_request("URL must start with http:// or https://"));
    }
    Ok(())
}

/// The indexer a creation answers with: enabled, priority 50 and a search
/// every 60 minutes unless the request says otherwise, never searched yet.
pub fn new_indexer_response(id: String, body: CreateIndexerRequest, created_at: String) -> (out:
    IndexerResponse)
    ensures
        out.id == id,
        out.name == body.name,
        out.indexer_type == body.indexer_type,
        out.url == body.url,
        out.categories == body.categories,
        out.is_enabled,
        out.priority == (match body.priority {
            Some(p) => p,
            None => 50,
        }),
        out.search_interval_minutes == (match body.search_interval_minutes {
            Some(m) => m,
            None => 60,
        }),
        out.last_searched_at is None,
        out.created_at == created_at,
{
    IndexerResponse {
        id,
        name: body.name,
        indexer_type: body.indexer_type,
        url: body.url,
        categories: body.categories,
        is_enabled: true,
        priority: match body.priority {
            Some(p) => p,
            None => 50,
        },
        search_interval_minutes: match body.search_interval_minutes {
            Some(m) => m,
            None => 60,
        },
        last_searched_at: None,
        created_at,
    }
}

/// Body of `PATCH /api/v1/indexers/:id`.
pub struct UpdateIndexerRequest {
    pub name: Option<String>,
    pub url: Option<String>,
    pub api_key: Option<String>,
    pub categories: Option<String>,
    pub is_enabled: Option<bool>,
    pub priority: Option<i32>,
    pub search_interval_minutes: Option<i32>,
}

/// Check an indexer update: a new URL must start with `http://` or `https://`.
pub fn validate_update_indexer(body: &UpdateIndexerRequest) -> (r: Result<(), AppError>)
    ensures
        r is Ok <==> (ostr(body.url) matches Some(u) ==> is_http_url(u)),
        r matches Err(e) ==> bad_request_with(e, "URL must start with http:// or https://"@),
{
    match &body.url {
        Some(u) => {
            let c = chars_of(u.as_str());
            if !starts_with_str(&c, "http://") && !starts_with_str(&c, "https://") {
                return Err(bad_request("URL must start with http:// or https://"));
            }
            Ok(())
        },
        None => Ok(()),
    }
}

// ---------------------------------------------------------------------------
// Download clients
// ---------------------------------------------------------------------------

/// A download client as the API shows it (without credentials).
pub struct DownloadClientResponse {
    pub id: String,
    pub name: String,
    pub client_type: String,
    pub host: String,
    pub port: i32,
    pub use_ssl: bool,
    pub download_directory: Option<String>,
    pub category: Option<String>,
    pub is_enabled: bool,
    pub priority: i32,
    pub created_at: String,
}

/// Body of `POST /api/v1/download-clients`.
pub struct CreateDownloadClientRequest {
    pub name: String,
    pub client_type: String,
    pub host: String,
    pub port: i32,
    pub username: Option<String>,
    pub password: Option<String>,
    pub use_ssl: Option<bool>,
    pub download_directory: Option<String>,
    pub category: Option<String>,
}

/// The outcome of checking a new download client: the first failing check,
/// in the order type, name, host.
pub open spec fn create_client_check(client_type: Seq<char>, name: Seq<char>, host: Seq<char>) -> Option<
    Seq<char>,
> {
    if !is_client_type(client_type) {
        Some(
            invalid_type_message(
                "client_type"@,
                client_type,
                "qbittorrent, transmission, deluge, rtorrent, direct"@,
            ),
        )
    } else if blank(name) {
        Some("Name is required"@)
    } else if blank(host) {
        Some("Host is required"@)
    } else {
        None
    }
}

/// Check a new download client before it is stored.
pub fn validate_create_download_client(body: &CreateDownloadClientRequest) -> (r: Result<
    (),
    AppError,
>)
    ensures
        match create_client_check(body.client_type@, body.name@, body.host@) {
            None => r is Ok,
            Some(m) => r matches Err(e) && bad_request_with(e, m),
        },
{
    validate_client_type(body.client_type.as_str())?;
    if is_blank(body.name.as_str()) {
        return Err(bad_request("Name is required"));
    }
    if is_blank(body.host.as_str()) {
        return Err(bad_request("Host is required"));
    }
    Ok(())
}

/// The download client a creation answers with: enabled, priority 50, TLS
/// only when asked for.
pub fn new_download_client_response(
    id: String,
    body: CreateDownloadClientRequest,
    created_at: String,
) -> (out: DownloadClientResponse)
    ensures
        out.id == id,
        out.name == body.name,
        out.client_type == body.client_type,
        out.host == body.host,
        out.port == body.port,
        out.use_ssl == (body.use_ssl == Some(true)),
        out.download_directory == body.download_directory,
        out.category == body.category,
        out.is_enabled,
        out.priority == 50,
        out.created_at == created_at,
{
    DownloadClientResponse {
        id,
        name: body.name,
        client_type: body.client_type,
        host: body.host,
        port: body.port,
        use_ssl: match body.use_ssl {
            Some(b) => b,
            None => false,
        },
        download_directory: body.download_directory,
        category: body.category,
        is_enabled: true,
        priority: 50,
        created_at,
    }
}

/// Body of `PATCH /api/v1/download-clients/:id`.
pub struct UpdateDownloadClientRequest {
    pub name: Option<String>,
    pub host: Option<String>,
    pub port: Option<i32>,
    pub username: Option<String>,
    pub password: Option<String>,
    pub use_ssl: Option<bool>,
    pub download_directory: Option<String>,
    pub category: Option<String>,
    pub is_enabled: Option<bool>,
    pub priority: Option<i32>,
}

// ---------------------------------------------------------------------------
// Wanted items
// ---------------------------------------------------------------------------

/// A wanted item as stored.
pub struct StoredWantedItem {
    pub id: String,
    pub user_id: String,
    pub item_type: String,
    pub title: String,
    pub author_name: Option<String>,
    pub isbn: Option<String>,
    pub year: Option<String>,
    pub preferred_format: Option<String>,
    pub quality_profile: Option<String>,
    pub is_active: bool,
    pub is_fulfilled: bool,
    pub fulfilled_at: Option<String>,
    pub last_searched_at: Option<String>,
    pub created_at: String,
}

/// A wanted item as the API shows it.
pub struct WantedItemResponse {
    pub id: String,
    pub user_id: String,
    pub item_type: String,
    pub title: String,
    pub author_name: Option<String>,
    pub isbn: Option<String>,
    pub year: Option<String>,
    pub preferred_format: Option<String>,
    pub quality_profile: Option<String>,
    pub is_active: bool,
    pub is_fulfilled: bool,
    pub fulfilled_at: Option<String>,
    pub last_searched_at: Option<String>,
    pub created_at: String,
}

/// A stored wanted item as the API shows it: every field carried over.
pub fn map_wanted_item_response(item: StoredWantedItem) -> (out: WantedItemResponse)
    ensures
        out.id == item.id,
        out.user_id == item.user_id,
        out.item_type == item.item_type,
        out.title == item.title,
        out.author_name == item.author_name,
        out.isbn == item.isbn,
        out.year == item.year,
        out.preferred_format == item.preferred_format,
        out.quality_profile == item.quality_profile,
        out.is_active == item.is_active,
        out.is_fulfilled == item.is_fulfilled,
        out.fulfilled_at == item.fulfilled_at,
        out.last_searched_at == item.last_searched_at,
        out.created_at == item.created_at,
{
    WantedItemResponse {
        id: item.id,
        user_id: item.user_id,
        item_type: item.item_type,
        title: item.title,
        author_name: item.author_name,
        isbn: item.isbn,
        year: item.year,
        preferred_format: item.preferred_format,
        quality_profile: item.quality_profile,
        is_active: item.is_active,
        is_fulfilled: item.is_fulfilled,
        fulfilled_at: item.fulfilled_at,
        last_searched_at: item.last_searched_at,
        created_at: item.created_at,
    }
}

/// Query of `GET /api/v1/wanted`.
pub struct WantedListQuery {
    pub active_only: Option<bool>,
}

/// Body of `POST /api/v1/wanted`.
pub struct CreateWantedItemRequest {
    pub item_type: String,
    pub title: String,
    pub author_name: Option<String>,
    pub isbn: Option<String>,
    pub year: Option<String>,
    pub preferred_format: Option<String>,
    pub quality_profile: Option<String>,
}

/// Check a new wanted item: a known type, then a title.
pub fn validate_create_wanted(body: &CreateWantedItemRequest) -> (r: Result<(), AppError>)
    ensures
        r is Ok <==> is_item_type(body.item_type@) && !blank(body.title@),
        r matches Err(e) ==> if !is_item_type(body.item_type@) {
            bad_request_with(
                e,
                invalid_type_message("item_type"@, body.item_type@, "book, author, series"@),
            )
        } else {
            bad_request_with(e, "Title is required"@)
        },
{
    validate_item_type(body.item_type.as_str())?;
    if is_blank(body.title.as_str()) {
        return Err(bad_request("Title is required"));
    }
    Ok(())
}

/// The wanted item a creation answers with: active, not fulfilled, never
/// searched, owned by the requesting user.
pub fn new_wanted_item_response(
    id: String,
    user_id: String,
    body: CreateWantedItemRequest,
    created_at: String,
) -> (out: WantedItemResponse)
    ensures
        out.id == id,
        out.user_id == user_id,
        out.item_type == body.item_type,
        out.title == body.title,
        out.author_name == body.author_name,
        out.isbn == body.isbn,
        out.year == body.year,
        out.preferred_format == body.preferred_format,
        out.quality_profile == body.quality_profile,
        out.is_active,
        !out.is_fulfilled,
        out.fulfilled_at is None,
        out.last_searched_at is None,
        out.created_at == created_at,
{
    WantedItemResponse {
        id,
        user_id,
        item_type: body.item_type,
        title: body.title,
        author_name: body.author_name,
        isbn: body.isbn,
        year: body.year,
        preferred_format: body.preferred_format,
        quality_profile: body.quality_profile,
        is_active: true,
        is_fulfilled: false,
        fulfilled_at: None,
        last_searched_at: None,
        created_at,
    }
}

/// Body of `PATCH /api/v1/wanted/:id`.
pub struct UpdateWantedItemRequest {
    pub title: Option<String>,
    pub author_name: Option<String>,
    pub isbn: Option<String>,
    pub year: Option<String>,
    pub preferred_format: Option<String>,
    pub quality_profile: Option<String>,
    pub is_active: Option<bool>,
}

/// Only the item's owner or the instance owner may change or delete a wanted
/// item.
pub fn check_wanted_item_access(item_user_id: &str, user: &AuthUser) -> (r: Result<(), AppError>)
    ensures
        r is Ok <==> (item_user_id@ == user.user_id@ || user.is_owner),
        r matches Err(e) ==> e matches AppError::Forbidden(m) && m@
            == "You do not own this wanted item"@,
{
    if !str_eq(item_user_id, user.user_id.as_str()) && !user.is_owner {
        return Err(AppError::Forbidden(string_from_str("You do not own this wanted item")));
    }
    Ok(())
}

// ---------------------------------------------------------------------------
// Grabs, downloads and search
// ---------------------------------------------------------------------------

/// Body of a grab: a search result to send to a download client.
pub struct GrabRequest {
    pub download_url: String,
    pub magnet_url: Option<String>,
    pub indexer_id: Option<String>,
    pub download_client_id: Option<String>,
    pub target_library_id: Option<String>,
    pub title: Option<String>,
    pub size_bytes: Option<i64>,
}

/// A grab needs a download URL.
pub fn validate_grab(body: &GrabRequest) -> (r: Result<(), AppError>)
    ensures
        r is Ok <==> !blank(body.download_url@),
        r matches Err(e) ==> bad_request_with(e, "download_url is required"@),
{
    if is_blank(body.download_url.as_str()) {
        return Err(bad_request("download_url is required"));
    }
    Ok(())
}

/// The title a grab is recorded under: the request's, else the wanted
/// item's, else "Unknown".
pub fn grab_title(title: Option<&str>, fallback_title: Option<&str>) -> (out: String)
    ensures
        out@ == match title {
            Some(t) => t@,
            None => match fallback_title {
                Some(f) => f@,
                None => "Unknown"@,
            },
        },
{
    match title {
        Some(t) => string_from_str(t),
        None => match fallback_title {
            Some(f) => string_from_str(f),
            None => string_from_str("Unknown"),
        },
    }
}

/// The status a grab starts in: downloading when the client took it, else
/// failed.
pub fn initial_download_status(accepted: bool) -> (out: String)
    ensures
        out@ == if accepted {
            "downloading"@
        } else {
            "failed"@
        },
{
    if accepted {
        string_from_str("downloading")
    } else {
        string_from_str("failed")
    }
}

/// Query of `GET /api/v1/downloads`.
pub struct DownloadListQuery {
    pub status: Option<String>,
    pub limit: Option<i64>,
}

/// The number of downloads listed: the requested limit (50 by default)
/// clamped to 1..=200.
pub fn download_list_limit(query: &DownloadListQuery) -> (n: i64)
    ensures
        n == (match query.limit {
            Some(l) => if l < 1 {
                1
            } else if l > 200 {
                200
            } else {
                l
            },
            None => 50,
        }),
{
    let l = match query.limit {
        Some(l) => l,
        None => 50,
    };
    if l < 1 {
        1
    } else if l > 200 {
        200
    } else {
        l
    }
}

/// Only a failed download can be retried.
pub fn check_retry(status: &str) -> (r: Result<(), AppError>)
    ensures
        r is Ok <==> status@ == "failed"@,
        r matches Err(e) ==> bad_request_with(e, "Only failed downloads can be retried"@),
{
    if !str_eq(status, "failed") {
        return Err(bad_request("Only failed downloads can be retried"));
    }
    Ok(())
}

/// Query of `GET /api/v1/acquisition/search`.
pub struct AcquisitionSearchQuery {
    pub q: String,
    pub author: Option<String>,
}

/// A search needs a query.
pub fn validate_search_query(query: &AcquisitionSearchQuery) -> (r: Result<(), AppError>)
    ensures
        r is Ok <==> !blank(query.q@),
        r matches Err(e) ==> bad_request_with(e, "Search query (q) is required"@),
{
    if is_blank(query.q.as_str()) {
        return Err(bad_request("Search query (q) is required"));
    }
    Ok(())
}

} // verus!
