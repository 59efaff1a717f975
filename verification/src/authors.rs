//! Authors: the order of an author listing, author photos' setting, and the
//! server-wide settings page.

use vstd::prelude::*;
use crate::books::{listing_order, order_by_keys, text_key, SortKey};
use crate::error::AppError;
use crate::metadata::{normalize_author, normalized_author};
use crate::model::{Author, Series};
use crate::pagination::{SortDirection, SortParams};
use crate::folder::{lemma_picks_step, picks};
use crate::text::{
    chars_of, extend_str, lowercase, ostr, starts_with, starts_with_str, str_eq, string_from_str, string_of,
    to_lowercase, trim, trim_str,
};

verus! {

/// An author with their series.
pub struct AuthorDetail {
    pub author: Author,
    pub series: Vec<Series>,
    pub standalone_count: usize,
}

/// Query of `GET /api/v1/libraries/:id/authors`.
pub struct ListAuthorsQuery {
    pub page: Option<u32>,
    pub per_page: Option<u32>,
    pub sort: Option<String>,
    pub dir: Option<String>,
}

/// Query of the photo prefetch.
pub struct PrefetchPhotosParams {
    /// Clear the cache first and fetch every author again.
    pub refresh: Option<bool>,
}

/// Normalize "Last, First" (Calibre sort form) to "First Last" for searching.
pub fn normalize_author_name(name: &str) -> (out: String)
    ensures
        out@ == normalized_author(name@),
{
    normalize_author(name)
}

/// The key an author is ordered by for a sort field: `name`, `sort_name`
/// (both ignoring case), `book_count`, `series_count`; anything else sorts by
/// sort name.
pub open spec fn author_key_matches(a: Author, field: Option<Seq<char>>, k: SortKey) -> bool {
    if field == Some("name"@) {
        k matches SortKey::Text(t) && t@ == lowercase(a.name@)
    } else if field == Some("book_count"@) {
        k == SortKey::Number(Some(a.book_count))
    } else if field == Some("series_count"@) {
        k == SortKey::Number(Some(a.series_count))
    } else {
        k matches SortKey::Text(t) && t@ == lowercase(a.sort_name@)
    }
}

/// Whether a listing is asked for in descending order (`dir=desc`).
pub open spec fn wants_descending(sort: SortParams) -> bool {
    sort.dir matches Some(d) && d@ == "desc"@
}

/// The order in which to list authors: stable by the requested key,
/// reversed when descending. Returns positions into `authors`.
pub fn author_listing_order(authors: &Vec<Author>, sort: &SortParams) -> (out: Vec<usize>)
    ensures
        exists|keys: Seq<SortKey>|
            keys.len() == authors@.len() && (forall|i: int|
                0 <= i < keys.len() ==> author_key_matches(
                    #[trigger] authors@[i],
                    ostr(sort.sort),
                    keys[i],
                )) && out@ == #[trigger] listing_order(keys, wants_descending(*sort)),
{
    let field = sort.field();
    let mut keys: Vec<SortKey> = Vec::new();
    let mut i: usize = 0;
    while i < authors.len()
        invariant
            i <= authors.len(),
            keys@.len() == i,
            match sort.sort {
                Some(s) => field matches Some(f) && f@ == s@,
                None => field is None,
            },
            forall|k: int|
                0 <= k < i ==> author_key_matches(#[trigger] authors@[k], ostr(sort.sort), keys@[k]),
        decreases authors.len() - i,
    {
        let a = &authors[i];
        let k = match field {
            Some(f) => if str_eq(f, "name") {
                text_key(a.name.as_str())
            } else if str_eq(f, "book_count") {
                SortKey::Number(Some(a.book_count))
            } else if str_eq(f, "series_count") {
                SortKey::Number(Some(a.series_count))
            } else {
                text_key(a.sort_name.as_str())
            },
            None => text_key(a.sort_name.as_str()),
        };
        keys.push(k);
        i = i + 1;
    }
    let descending = match sort.direction() {
        SortDirection::Descending => true,
        SortDirection::Ascending => false,
    };
    let out = order_by_keys(&keys, descending);
    assert(out@ == listing_order(keys@, wants_descending(*sort)));
    out
}

// ---------------------------------------------------------------------------
// Server settings
// ---------------------------------------------------------------------------

/// Whether author photos are fetched and served: unless the setting reads
/// `false`.
pub fn author_images_enabled(setting: Option<&str>) -> (r: bool)
    ensures
        r == !(setting matches Some(v) && v@ == "false"@),
{
    match setting {
        Some(v) => !str_eq(v, "false"),
        None => true,
    }
}

/// The server-wide settings as shown.
pub struct ServerSettings {
    pub author_images_enabled: bool,
    /// Calibre write-back mode: "none" | "calibredb" | "content_server".
    pub calibre_writeback_mode: String,
    pub calibredb_path: String,
    pub calibre_cs_url: String,
    pub calibre_cs_username: String,
    pub calibre_cs_library_id: String,
    /// Whether a Content Server password is stored (it is never returned).
    pub calibre_cs_password_set: bool,
}

/// Body of `PUT /api/v1/server/settings`.
pub struct UpdateServerSettings {
    pub author_images_enabled: Option<bool>,
    pub calibre_writeback_mode: Option<String>,
    pub calibredb_path: Option<String>,
    pub calibre_cs_url: Option<String>,
    pub calibre_cs_username: Option<String>,
    pub calibre_cs_password: Option<String>,
    pub calibre_cs_library_id: Option<String>,
}

/// The settings as shown, from the stored values (missing ones read as
/// empty): an empty write-back mode shows as `none`, and the password only
/// as whether it is set.
pub fn server_settings(
    author_images_setting: Option<&str>,
    mode: String,
    calibredb_path: String,
    cs_url: String,
    cs_username: String,
    cs_library_id: String,
    cs_password: &str,
) -> (out: ServerSettings)
    ensures
        out.author_images_enabled == !(author_images_setting matches Some(v) && v@ == "false"@),
        out.calibre_writeback_mode@ == if mode@.len() == 0 {
            "none"@
        } else {
            mode@
        },
        out.calibredb_path == calibredb_path,
        out.calibre_cs_url == cs_url,
        out.calibre_cs_username == cs_username,
        out.calibre_cs_library_id == cs_library_id,
        out.calibre_cs_password_set == (cs_password@.len() > 0),
{
    ServerSettings {
        author_images_enabled: author_images_enabled(author_images_setting),
        calibre_writeback_mode: if mode.as_str().is_empty() {
            string_from_str("none")
        } else {
            mode
        },
        calibredb_path,
        calibre_cs_url: cs_url,
        calibre_cs_username: cs_username,
        calibre_cs_library_id: cs_library_id,
        calibre_cs_password_set: !cs_password.is_empty(),
    }
}

/// Only the owner changes settings.
pub fn check_settings_owner(is_owner: bool) -> (r: Result<(), AppError>)
    ensures
        r is Ok <==> is_owner,
        r matches Err(e) ==> e matches AppError::Forbidden(m) && m@
            == "Only the server owner can change settings"@,
{
    if !is_owner {
        return Err(AppError::Forbidden(string_from_str("Only the server owner can change settings")));
    }
    Ok(())
}

/// A write-back mode given in an update: trimmed, one of `none`,
/// `calibredb`, `content_server`.
pub fn settings_writeback_mode(mode: &str) -> (r: Result<String, AppError>)
    ensures
        ({
            let t = trim(mode@);
            if t == "none"@ || t == "calibredb"@ || t == "content_server"@ {
                r matches Ok(v) && v@ == t
            } else {
                r matches Err(e) && e matches AppError::BadRequest(m) && m@
                    == "invalid calibre_writeback_mode: "@ + t
            }
        }),
{
    let t = trim_str(mode);
    let ts = string_of(&t);
    let s = ts.as_str();
    if str_eq(s, "none") || str_eq(s, "calibredb") || str_eq(s, "content_server") {
        Ok(ts)
    } else {
        let mut v = chars_of("invalid calibre_writeback_mode: ");
        extend_str(&mut v, s);
        Err(AppError::BadRequest(string_of(&v)))
    }
}

/// The value stored for the author-photos setting.
pub fn author_images_setting_value(enabled: bool) -> (out: String)
    ensures
        out@ == if enabled {
            "true"@
        } else {
            "false"@
        },
{
    if enabled {
        string_from_str("true")
    } else {
        string_from_str("false")
    }
}

/// A Content Server password in an update replaces the stored one only when
/// it is not empty.
pub fn password_update(password: &Option<String>) -> (r: Option<&str>)
    ensures
        match ostr(*password) {
            Some(p) => if p.len() > 0 {
                r matches Some(x) && x@ == p
            } else {
                r is None
            },
            None => r is None,
        },
{
    match password {
        Some(p) => if p.as_str().is_empty() {
            None
        } else {
            Some(p.as_str())
        },
        None => None,
    }
}

// ---------------------------------------------------------------------------
// Author photos
// ---------------------------------------------------------------------------

/// The key an author's photo is cached under: the name trimmed, in lower
/// case.
pub open spec fn photo_key_of(name: Seq<char>) -> Seq<char> {
    lowercase(trim(name))
}

/// The key an author's photo is cached under.
pub fn author_photo_key(name: &str) -> (out: String)
    ensures
        out@ == photo_key_of(name@),
{
    let t = string_of(&trim_str(name));
    to_lowercase(t.as_str())
}

/// Whether the name at position `k` is fetched by a prefetch: its key is not
/// empty and no earlier name has the same key.
pub open spec fn photo_name_picked(names: Seq<String>, k: int) -> bool {
    &&& photo_key_of(names[k]@).len() > 0
    &&& forall|j: int| 0 <= j < k ==> photo_key_of((#[trigger] names[j])@) != photo_key_of(names[k]@)
}

/// The names a photo prefetch fetches, by position: one per cache key, the
/// first with it, skipping names with an empty key.
pub fn photo_prefetch_names(names: &Vec<String>) -> (picked: Vec<usize>)
    ensures
        picks(picked@, names@.len() as int, |k: int| photo_name_picked(names@, k)),
{
    let mut keys: Vec<String> = Vec::new();
    let mut picked: Vec<usize> = Vec::new();
    let mut k: usize = 0;
    while k < names.len()
        invariant
            k <= names.len(),
            picks(picked@, k as int, |j: int| photo_name_picked(names@, j)),
            keys@.len() == k,
            forall|j: int| 0 <= j < k ==> (#[trigger] keys@[j])@ == photo_key_of(names@[j]@),
        decreases names.len() - k,
    {
        let key = author_photo_key(names[k].as_str());
        let mut fresh = key.as_str().is_empty() == false;
        let mut j: usize = 0;
        while j < k
            invariant
                j <= k,
                k < names.len(),
                keys@.len() == k,
                forall|i: int| 0 <= i < k ==> (#[trigger] keys@[i])@ == photo_key_of(names@[i]@),
                key@ == photo_key_of(names@[k as int]@),
                fresh == (key@.len() > 0 && forall|i: int| 0 <= i < j ==> (#[trigger] keys@[i])@ != key@),
            decreases k - j,
        {
            if str_eq(keys[j].as_str(), key.as_str()) {
                fresh = false;
            }
            j = j + 1;
        }
        let ghost before = picked@;
        proof {
            if !fresh && key@.len() > 0 {
                let i = choose|i: int| 0 <= i < k && !((#[trigger] keys@[i])@ != key@);
                assert(photo_key_of(names@[i]@) == key@);
            }
            if fresh {
                assert forall|i: int| 0 <= i < k implies photo_key_of((#[trigger] names@[i])@) != key@ by {
                    assert(keys@[i]@ != key@);
                }
            }
            assert(fresh == photo_name_picked(names@, k as int));
        }
        if fresh {
            picked.push(k);
        }
        keys.push(key);
        proof {
            lemma_picks_step(before, picked@, k as int, |j: int| photo_name_picked(names@, j), fresh);
        }
        k = k + 1;
    }
    picked
}

/// Who may start a photo prefetch, and when: the owner only, with author
/// photos enabled.
pub fn check_photo_prefetch(is_owner: bool, photos_enabled: bool) -> (r: Result<(), AppError>)
    ensures
        !is_owner ==> (r matches Err(e) && e matches AppError::Forbidden(m) && m@
            == "Only the server owner can do this"@),
        is_owner && !photos_enabled ==> (r matches Err(e) && e matches AppError::BadRequest(m) && m@
            == "Author photos are disabled — enable them first"@),
        is_owner && photos_enabled ==> r is Ok,
{
    if !is_owner {
        return Err(AppError::Forbidden(string_from_str("Only the server owner can do this")));
    }
    if !photos_enabled {
        return Err(AppError::BadRequest(string_from_str("Author photos are disabled — enable them first")));
    }
    Ok(())
}

/// The Open Library id of an author: the key of the first search document
/// that has one.
pub open spec fn first_key(keys: Seq<Option<String>>) -> Option<Seq<char>>
    decreases keys.len(),
{
    if keys.len() == 0 {
        None
    } else {
        match first_key(keys.drop_last()) {
            Some(k) => Some(k),
            None => ostr(keys.last()),
        }
    }
}

/// The first key of a prefix that holds one is the first of the whole.
proof fn lemma_first_key_prefix(keys: Seq<Option<String>>, n: int)
    requires
        0 <= n <= keys.len(),
        first_key(keys.take(n)) is Some,
    ensures
        first_key(keys) == first_key(keys.take(n)),
    decreases keys.len() - n,
{
    if n < keys.len() {
        assert(keys.take(n + 1).drop_last() =~= keys.take(n));
        lemma_first_key_prefix(keys, n + 1);
    } else {
        assert(keys.take(n) =~= keys);
    }
}

/// The Open Library id of an author from the keys of the search documents.
pub fn author_photo_olid(doc_keys: &Vec<Option<String>>) -> (r: Option<String>)
    ensures
        ostr(r) == first_key(doc_keys@),
{
    let mut i: usize = 0;
    while i < doc_keys.len()
        invariant
            i <= doc_keys.len(),
            first_key(doc_keys@.take(i as int)) is None,
        decreases doc_keys.len() - i,
    {
        assert(doc_keys@.take(i + 1).drop_last() =~= doc_keys@.take(i as int));
        match &doc_keys[i] {
            Some(k) => {
                proof {
                    lemma_first_key_prefix(doc_keys@, i as int + 1);
                }
                return Some(k.clone());
            },
            None => {},
        }
        i = i + 1;
    }
    assert(doc_keys@.take(doc_keys.len() as int) =~= doc_keys@);
    None
}

/// The address of an author's large portrait; the image service answers
/// "not found" rather than a blank picture when it has none.
pub fn author_photo_url(olid: &str) -> (out: String)
    ensures
        out@ == "https://covers.openlibrary.org/a/olid/"@ + olid@ + "-L.jpg?default=false"@,
{
    let mut v = chars_of("https://covers.openlibrary.org/a/olid/");
    extend_str(&mut v, olid);
    extend_str(&mut v, "-L.jpg?default=false");
    string_of(&v)
}

/// The content type a fetched portrait is kept with: the one the image
/// service sent (`image/jpeg` when it sent none); none when it is not an
/// image or the body is empty.
pub fn accepted_photo_type(content_type: Option<&str>, body_len: usize) -> (r: Option<String>)
    ensures
        ({
            let t = match content_type {
                Some(c) => c@,
                None => "image/jpeg"@,
            };
            if starts_with(t, "image/"@) && body_len > 0 {
                r matches Some(x) && x@ == t
            } else {
                r is None
            }
        }),
{
    let t = match content_type {
        Some(c) => chars_of(c),
        None => chars_of("image/jpeg"),
    };
    if !starts_with_str(&t, "image/") || body_len == 0 {
        None
    } else {
        Some(string_of(&t))
    }
}

/// What a photo request does with the cache's entry for the author.
pub enum CachedPhoto {
    /// Known to have no portrait: answer "not found".
    Missing,
    /// Serve the cached image.
    Serve,
    /// Fetch the portrait from the image service.
    Fetch,
}

/// What the cache's entry (whether it records "not found", whether it holds
/// an image) says to do.
pub fn cached_photo_action(entry: Option<(bool, bool)>) -> (r: CachedPhoto)
    ensures
        match entry {
            Some((not_found, has_image)) => if not_found {
                r is Missing
            } else if has_image {
                r is Serve
            } else {
                r is Fetch
            },
            None => r is Fetch,
        },
{
    match entry {
        Some((not_found, has_image)) => if not_found {
            CachedPhoto::Missing
        } else if has_image {
            CachedPhoto::Serve
        } else {
            CachedPhoto::Fetch
        },
        None => CachedPhoto::Fetch,
    }
}

} // verus!
