//! Owner-only administration: SSO provider records and the filesystem
//! browser used to pick library paths. Reading directories and the database
//! is done by the caller.

use vstd::prelude::*;
use crate::error::AppError;
use crate::text::{chars_of, ostr, starts_with_str, str_eq, string_from_str, strs};

verus! {

// ---------------------------------------------------------------------------
// SSO providers
// ---------------------------------------------------------------------------

/// A provider as shown to the admin: the client secret is never echoed back,
/// only whether one is set.
pub struct AdminProvider {
    pub id: String,
    pub kind: String,
    pub display_name: String,
    pub client_id: String,
    pub has_client_secret: bool,
    pub issuer_url: Option<String>,
    pub authorize_url: Option<String>,
    pub token_url: Option<String>,
    pub userinfo_url: Option<String>,
    pub scopes: Option<String>,
    pub enabled: bool,
    pub auto_register: bool,
}

/// Body for creating or updating a provider.
pub struct UpsertProviderRequest {
    pub kind: String,
    pub display_name: String,
    pub client_id: String,
    pub client_secret: Option<String>,
    pub issuer_url: Option<String>,
    pub authorize_url: Option<String>,
    pub token_url: Option<String>,
    pub userinfo_url: Option<String>,
    pub scopes: Option<String>,
    pub enabled: bool,
    pub auto_register: bool,
}

/// The value of `enabled` and `auto_register` when a request omits them.
pub fn default_true() -> (b: bool)
    ensures
        b,
{
    true
}

/// A provider is of kind `oidc` or `oauth2`.
pub fn validate_provider_kind(kind: &str) -> (r: Result<(), AppError>)
    ensures
        r is Ok <==> (kind@ == "oidc"@ || kind@ == "oauth2"@),
        r matches Err(e) ==> e matches AppError::BadRequest(m) && m@
            == "kind must be 'oidc' or 'oauth2'"@,
{
    if !str_eq(kind, "oidc") && !str_eq(kind, "oauth2") {
        return Err(AppError::BadRequest(string_from_str("kind must be 'oidc' or 'oauth2'")));
    }
    Ok(())
}

/// The secret sent with an update, when it is one: an absent or empty secret
/// keeps the stored one.
pub fn incoming_secret(client_secret: &Option<String>) -> (r: Option<String>)
    ensures
        match ostr(*client_secret) {
            Some(s) => if s.len() > 0 {
                ostr(r) == Some(s)
            } else {
                r is None
            },
            None => r is None,
        },
{
    match client_secret {
        Some(s) => if s.as_str().is_empty() {
            None
        } else {
            Some(s.clone())
        },
        None => None,
    }
}

/// Whether a provider has a (non-empty) client secret.
pub fn has_client_secret(secret: &Option<String>) -> (r: bool)
    ensures
        r == (ostr(*secret) matches Some(s) && s.len() > 0),
{
    match secret {
        Some(s) => !s.as_str().is_empty(),
        None => false,
    }
}

/// The provider an upsert answers with: the request's fields, and whether the
/// secret in effect is set.
pub fn provider_response(id: String, body: UpsertProviderRequest, effective_secret: &Option<String>) -> (out:
    AdminProvider)
    ensures
        out.id == id,
        out.kind == body.kind,
        out.display_name == body.display_name,
        out.client_id == body.client_id,
        out.has_client_secret == (ostr(*effective_secret) matches Some(s) && s.len() > 0),
        out.issuer_url == body.issuer_url,
        out.authorize_url == body.authorize_url,
        out.token_url == body.token_url,
        out.userinfo_url == body.userinfo_url,
        out.scopes == body.scopes,
        out.enabled == body.enabled,
        out.auto_register == body.auto_register,
{
    AdminProvider {
        id,
        kind: body.kind,
        display_name: body.display_name,
        client_id: body.client_id,
        has_client_secret: has_client_secret(effective_secret),
        issuer_url: body.issuer_url,
        authorize_url: body.authorize_url,
        token_url: body.token_url,
        userinfo_url: body.userinfo_url,
        scopes: body.scopes,
        enabled: body.enabled,
        auto_register: body.auto_register,
    }
}

// ---------------------------------------------------------------------------
// Filesystem browser
// ---------------------------------------------------------------------------

/// A directory listed by the browser.
pub struct DirectoryEntry {
    pub name: String,
    pub path: String,
    pub is_directory: bool,
}

/// A listing of the browser.
pub struct BrowseResponse {
    pub current_path: String,
    pub parent_path: Option<String>,
    pub separator: String,
    pub entries: Vec<DirectoryEntry>,
    pub roots: Vec<String>,
}

/// Whether a path can hold a library.
pub struct ValidateResponse {
    pub valid: bool,
    pub path: String,
    pub is_directory: bool,
    pub has_metadata_db: bool,
}

/// Query of `GET /api/v1/filesystem/browse`.
pub struct BrowseQuery {
    pub path: Option<String>,
}

/// Query of `GET /api/v1/filesystem/validate`.
pub struct ValidateQuery {
    pub path: String,
    pub source_kind: Option<String>,
}

/// The path to browse: the requested one when given and not empty; `None`
/// lists the roots.
pub fn browse_target(query: &BrowseQuery) -> (r: Option<String>)
    ensures
        match ostr(query.path) {
            Some(p) => if p.len() > 0 {
                ostr(r) == Some(p)
            } else {
                r is None
            },
            None => r is None,
        },
{
    match &query.path {
        Some(p) => if p.as_str().is_empty() {
            None
        } else {
            Some(p.clone())
        },
        None => None,
    }
}

/// The listing of the filesystem roots: each root as a directory entry named
/// and located by itself, with no current or parent path.
pub fn roots_listing(roots: Vec<String>, separator: String) -> (out: BrowseResponse)
    ensures
        out.current_path@.len() == 0,
        out.parent_path is None,
        out.separator == separator,
        out.roots == roots,
        out.entries@.len() == roots@.len(),
        forall|i: int|
            0 <= i < roots@.len() ==> (#[trigger] out.entries@[i]).name@ == roots@[i]@
                && out.entries@[i].path@ == roots@[i]@ && out.entries@[i].is_directory,
{
    let mut entries: Vec<DirectoryEntry> = Vec::new();
    let mut i: usize = 0;
    while i < roots.len()
        invariant
            i <= roots.len(),
            entries@.len() == i,
            forall|k: int|
                0 <= k < i ==> (#[trigger] entries@[k]).name@ == roots@[k]@ && entries@[k].path@
                    == roots@[k]@ && entries@[k].is_directory,
        decreases roots.len() - i,
    {
        entries.push(
            DirectoryEntry { name: roots[i].clone(), path: roots[i].clone(), is_directory: true },
        );
        i = i + 1;
    }
    BrowseResponse {
        current_path: String::new(),
        parent_path: None,
        separator,
        entries,
        roots,
    }
}

/// Whether a directory is listed: hidden ones (a leading dot) are not.
pub fn is_listed_directory(name: &str) -> (r: bool)
    ensures
        r == !(name@.len() > 0 && name@[0] == '.'),
{
    let c = chars_of(name);
    !(c.len() > 0 && c[0] == '.')
}

/// Whether a path can hold a library: a directory, and for a Calibre source
/// one with a `metadata.db`.
pub fn validate_library_path(
    path: String,
    is_directory: bool,
    has_metadata_db: bool,
    source_kind: Option<&str>,
) -> (out: ValidateResponse)
    ensures
        out.path == path,
        out.is_directory == is_directory,
        out.has_metadata_db == (is_directory && has_metadata_db),
        out.valid == (is_directory && (!(source_kind matches Some(k) && k@ == "calibre"@)
            || has_metadata_db)),
{
    let is_calibre = match source_kind {
        Some(k) => str_eq(k, "calibre"),
        None => false,
    };
    let has_db = is_directory && has_metadata_db;
    ValidateResponse {
        valid: is_directory && (!is_calibre || has_db),
        path,
        is_directory,
        has_metadata_db: has_db,
    }
}

} // verus!
