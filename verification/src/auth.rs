//! Authentication decisions: session cookies, Bearer API keys and session ids,
//! the scoped media-token path and the local-only owner bypass.
//!
//! Database lookups and the HTTP plumbing are done by the caller; this module
//! decides which credential a request carries and what a lookup result
//! means, and hashes passwords and session ids.

use vstd::prelude::*;
use crate::error::AppError;
use crate::text::{
    chars_eq_str, chars_of, find_char, split_chars, split_on, split_once, split_once_chars,
    starts_with, starts_with_str, string_from_str, string_of, strip_prefix, strip_prefix_chars,
    trim, trim_chars, trim_matches, trim_matches_chars, views,
};
use crate::crypto::{hex_encode, hex_lower, sha256, sha256_digest};
use crate::media_token::{looks_like_media_token, spec_looks_like_media_token, utf8};

verus! {

/// Authenticated user context, extracted by middleware.
#[derive(Debug, Clone)]
pub struct AuthUser {
    pub user_id: String,
    pub username: String,
    pub is_owner: bool,
    /// The session ID used to authenticate this request (None for API key auth).
    pub session_id: Option<String>,
}

/// Require that the authenticated user is the instance owner.
pub fn require_owner(user: &AuthUser) -> (r: Result<(), AppError>)
    ensures
        user.is_owner <==> r is Ok,
        r matches Err(e) ==> e matches AppError::Forbidden(m) && m@ == "Owner access required"@,
{
    if !user.is_owner {
        return Err(AppError::Forbidden(string_from_str("Owner access required")));
    }
    Ok(())
}

/// Whether `path` is one of the GET media routes that may accept a scoped media
/// token: `/api/v1/books/{id}/cover`, `/api/v1/books/{id}/file`,
/// `/api/v1/authors/{id}/photo` (surrounding slashes ignored).
pub open spec fn spec_media_route(path: Seq<char>) -> bool {
    let segs = split_on(trim_matches(path, '/'), '/');
    &&& segs.len() == 5
    &&& segs[0] == "api"@
    &&& segs[1] == "v1"@
    &&& ((segs[2] == "books"@ && (segs[4] == "cover"@ || segs[4] == "file"@)) || (segs[2]
        == "authors"@ && segs[4] == "photo"@))
}

/// Whether `path` is a media route.
pub fn is_media_route(path: &str) -> (r: bool)
    ensures
        r == spec_media_route(path@),
{
    let p = chars_of(path);
    let t = trim_matches_chars(&p, '/');
    let segs = split_chars(&t, '/');
    if segs.len() != 5 {
        return false;
    }
    assert(segs@[0]@ == split_on(t@, '/')[0]);
    assert(segs@[1]@ == split_on(t@, '/')[1]);
    assert(segs@[2]@ == split_on(t@, '/')[2]);
    assert(segs@[4]@ == split_on(t@, '/')[4]);
    if !chars_eq_str(&segs[0], "api") || !chars_eq_str(&segs[1], "v1") {
        return false;
    }
    (chars_eq_str(&segs[2], "books") && (chars_eq_str(&segs[4], "cover") || chars_eq_str(
        &segs[4],
        "file",
    ))) || (chars_eq_str(&segs[2], "authors") && chars_eq_str(&segs[4], "photo"))
}

/// The value of the first `key=value` pair in `pairs` whose key is `name`.
pub open spec fn first_param(pairs: Seq<Seq<char>>, name: Seq<char>) -> Option<Seq<char>>
    decreases pairs.len(),
{
    if pairs.len() == 0 {
        None
    } else {
        match split_once(pairs[0], '=') {
            Some((k, v)) => if k == name {
                Some(v)
            } else {
                first_param(pairs.drop_first(), name)
            },
            None => first_param(pairs.drop_first(), name),
        }
    }
}

/// The value of the query parameter `name`: the first `&`-separated pair whose
/// part before the first `=` is `name`. No percent-decoding.
pub open spec fn spec_query_param(query: Seq<char>, name: Seq<char>) -> Option<Seq<char>> {
    first_param(split_on(query, '&'), name)
}

/// Pull a named value out of a URL query string.
pub fn parse_query_param(query: &str, name: &str) -> (r: Option<String>)
    ensures
        match r {
            Some(v) => spec_query_param(query@, name@) == Some(v@),
            None => spec_query_param(query@, name@) is None,
        },
{
    let q = chars_of(query);
    let pairs = split_chars(&q, '&');
    let mut i: usize = 0;
    assert(views(pairs@).skip(0) =~= views(pairs@));
    while i < pairs.len()
        invariant
            i <= pairs.len(),
            q@ == query@,
            views(pairs@) == split_on(query@, '&'),
            spec_query_param(query@, name@) == first_param(views(pairs@).skip(i as int), name@),
        decreases pairs.len() - i,
    {
        let ghost rest = views(pairs@).skip(i as int);
        assert(rest[0] == pairs@[i as int]@);
        assert(rest.drop_first() =~= views(pairs@).skip(i + 1));
        match split_once_chars(&pairs[i], '=') {
            Some((k, v)) => {
                if chars_eq_str(&k, name) {
                    return Some(string_of(&v));
                }
            },
            None => {},
        }
        i = i + 1;
    }
    None
}

/// The first cookie among `pieces` (each trimmed) that starts with `prefix`,
/// with the prefix removed.
pub open spec fn first_cookie(pieces: Seq<Seq<char>>, prefix: Seq<char>) -> Option<Seq<char>>
    decreases pieces.len(),
{
    if pieces.len() == 0 {
        None
    } else if starts_with(trim(pieces[0]), prefix) {
        strip_prefix(trim(pieces[0]), prefix)
    } else {
        first_cookie(pieces.drop_first(), prefix)
    }
}

/// The session id carried by a `Cookie` header: the value of the first
/// `ironshelf_session=` cookie.
pub open spec fn spec_session_cookie(cookie: Seq<char>) -> Option<Seq<char>> {
    first_cookie(split_on(cookie, ';'), "ironshelf_session="@)
}

/// Extract the session id from a cookie header.
pub fn extract_session_cookie(cookie_str: &str) -> (r: Option<String>)
    ensures
        match r {
            Some(v) => spec_session_cookie(cookie_str@) == Some(v@),
            None => spec_session_cookie(cookie_str@) is None,
        },
{
    let c = chars_of(cookie_str);
    let pieces = split_chars(&c, ';');
    let mut i: usize = 0;
    assert(views(pieces@).skip(0) =~= views(pieces@));
    while i < pieces.len()
        invariant
            i <= pieces.len(),
            views(pieces@) == split_on(cookie_str@, ';'),
            spec_session_cookie(cookie_str@) == first_cookie(
                views(pieces@).skip(i as int),
                "ironshelf_session="@,
            ),
        decreases pieces.len() - i,
    {
        let ghost rest = views(pieces@).skip(i as int);
        assert(rest[0] == pieces@[i as int]@);
        assert(rest.drop_first() =~= views(pieces@).skip(i + 1));
        let piece = trim_chars(&pieces[i]);
        if starts_with_str(&piece, "ironshelf_session=") {
            match strip_prefix_chars(&piece, "ironshelf_session=") {
                Some(v) => {
                    return Some(string_of(&v));
                },
                None => {
                    return None;
                },
            }
        }
        i = i + 1;
    }
    None
}

/// An IP address of a client, as the connection reports it.
#[derive(Debug, Clone, Copy, PartialEq, Eq)]
pub enum IpAddress {
    /// IPv4, four octets.
    V4(u8, u8, u8, u8),
    /// IPv6, eight 16-bit segments.
    V6(u16, u16, u16, u16, u16, u16, u16, u16),
}

/// Loopback, RFC1918 private or link-local IPv4; loopback, unique-local
/// (fc00::/7) or link-local (fe80::/10) IPv6: the same machine or the LAN.
pub open spec fn spec_local_ip(ip: IpAddress) -> bool {
    match ip {
        IpAddress::V4(a, b, _c, _d) => {
            ||| a == 127
            ||| a == 10
            ||| (a == 172 && 16 <= b <= 31)
            ||| (a == 192 && b == 168)
            ||| (a == 169 && b == 254)
        },
        IpAddress::V6(s0, s1, s2, s3, s4, s5, s6, s7) => {
            ||| (s0 == 0 && s1 == 0 && s2 == 0 && s3 == 0 && s4 == 0 && s5 == 0 && s6 == 0 && s7
                == 1)
            ||| (s0 & 0xfe00u16) == 0xfc00u16
            ||| (s0 & 0xffc0u16) == 0xfe80u16
        },
    }
}

/// Whether `ip` is a loopback or LAN address.
pub fn is_local_ip(ip: IpAddress) -> (r: bool)
    ensures
        r == spec_local_ip(ip),
{
    match ip {
        IpAddress::V4(a, b, _c, _d) => a == 127 || a == 10 || (a == 172 && 16 <= b && b <= 31) || (
        a == 192 && b == 168) || (a == 169 && b == 254),
        IpAddress::V6(s0, s1, s2, s3, s4, s5, s6, s7) => (s0 == 0 && s1 == 0 && s2 == 0 && s3 == 0
            && s4 == 0 && s5 == 0 && s6 == 0 && s7 == 1) || (s0 & 0xfe00u16) == 0xfc00u16 || (s0
            & 0xffc0u16) == 0xfe80u16,
    }
}

/// A header as the request carries it: absent, present but not visible ASCII
/// text, or text.
pub enum HeaderText {
    Absent,
    Unreadable,
    Text(String),
}

/// The credential a request presents, in the order the middleware tries them.
#[derive(Debug, PartialEq, Eq)]
pub enum Credential {
    /// An `irs_<prefix>.<secret>` API key.
    ApiKey(String),
    /// A raw session id.
    Session(String),
    /// A header was unreadable: reject with 401.
    Malformed,
    /// No credential at all: reject with 401.
    Missing,
}

/// A token is an API key when it starts with `irs_`, otherwise a session id.
pub open spec fn classify(token: Seq<char>) -> (bool, Seq<char>) {
    (starts_with(token, "irs_"@), token)
}

/// The credential of a request: a `Bearer` authorization header first, then the
/// `ironshelf_session` cookie, then the `access_token` query parameter.
pub open spec fn spec_credential(
    authorization: HeaderText,
    cookie: HeaderText,
    query_token: Option<Seq<char>>,
) -> (Option<(bool, Seq<char>)>, bool) {
    match authorization {
        HeaderText::Unreadable => (None, true),
        HeaderText::Text(a) if starts_with(a@, "Bearer "@) => (
            Some(classify(a@.skip(7))),
            false,
        ),
        _ => match cookie {
            HeaderText::Unreadable => (None, true),
            HeaderText::Text(c) if spec_session_cookie(c@) is Some => (
                Some((false, spec_session_cookie(c@)->0)),
                false,
            ),
            _ => match query_token {
                Some(t) => (Some(classify(t)), false),
                None => (None, false),
            },
        },
    }
}

/// Whether `cred` is what `spec_credential` describes.
pub open spec fn credential_matches(cred: Credential, spec: (Option<(bool, Seq<char>)>, bool)) -> bool {
    match cred {
        Credential::ApiKey(t) => spec.0 == Some((true, t@)),
        Credential::Session(t) => spec.0 == Some((false, t@)),
        Credential::Malformed => spec.0 is None && spec.1,
        Credential::Missing => spec.0 is None && !spec.1,
    }
}

/// Classifies a bearer or query token.
fn classify_token(token: Vec<char>) -> (c: Credential)
    ensures
        credential_matches(c, (Some(classify(token@)), false)),
{
    if starts_with_str(&token, "irs_") {
        Credential::ApiKey(string_of(&token))
    } else {
        Credential::Session(string_of(&token))
    }
}

/// Decide which credential a request presents.
pub fn select_credential(
    authorization: &HeaderText,
    cookie: &HeaderText,
    query_token: Option<&str>,
) -> (c: Credential)
    ensures
        credential_matches(
            c,
            spec_credential(
                *authorization,
                *cookie,
                match query_token {
                    Some(t) => Some(t@),
                    None => None,
                },
            ),
        ),
{
    match authorization {
        HeaderText::Unreadable => {
            return Credential::Malformed;
        },
        HeaderText::Text(a) => {
            let ac = chars_of(a.as_str());
            if let Some(token) = strip_prefix_chars(&ac, "Bearer ") {
                proof {
                    reveal_strlit("Bearer ");
                }
                return classify_token(token);
            }
        },
        HeaderText::Absent => {},
    }
    match cookie {
        HeaderText::Unreadable => {
            return Credential::Malformed;
        },
        HeaderText::Text(c) => {
            if let Some(sid) = extract_session_cookie(c.as_str()) {
                return Credential::Session(sid);
            }
        },
        HeaderText::Absent => {},
    }
    match query_token {
        Some(t) => classify_token(chars_of(t)),
        None => Credential::Missing,
    }
}

/// The `(prefix, secret)` of an API key `irs_<prefix>.<secret>`.
pub open spec fn spec_api_key_parts(token: Seq<char>) -> Option<(Seq<char>, Seq<char>)> {
    match strip_prefix(token, "irs_"@) {
        Some(rest) => split_once(rest, '.'),
        None => None,
    }
}

/// Split an API key into its lookup prefix and secret; `Unauthorized` when the
/// key does not have the `irs_<prefix>.<secret>` shape.
pub fn split_api_key(token: &str) -> (r: Result<(String, String), AppError>)
    ensures
        match r {
            Ok((p, s)) => spec_api_key_parts(token@) == Some((p@, s@)),
            Err(e) => spec_api_key_parts(token@) is None && e is Unauthorized,
        },
{
    let t = chars_of(token);
    match strip_prefix_chars(&t, "irs_") {
        Some(rest) => match split_once_chars(&rest, '.') {
            Some((p, s)) => Ok((string_of(&p), string_of(&s))),
            None => Err(AppError::Unauthorized(String::new())),
        },
        None => Err(AppError::Unauthorized(String::new())),
    }
}

/// Whether an optional text equals `s`.
pub open spec fn opt_is(v: Option<Seq<char>>, s: Seq<char>) -> bool {
    v matches Some(x) && x == s
}

/// The local-only owner bypass applies only when every guard passes: the owner
/// enabled it (`local_auth_bypass` is `"true"`), the server is not claimed to a
/// cloud account, no remote access method is configured (absent, empty or
/// `"none"`), and the peer is a loopback/LAN address.
pub open spec fn spec_local_bypass(
    bypass_setting: Option<Seq<char>>,
    claimed: bool,
    remote_method: Option<Seq<char>>,
    client_ip: Option<IpAddress>,
) -> bool {
    &&& opt_is(bypass_setting, "true"@)
    &&& !claimed
    &&& (remote_method is None || opt_is(remote_method, ""@) || opt_is(remote_method, "none"@))
    &&& client_ip matches Some(ip) && spec_local_ip(ip)
}

/// The view of an optional string.
pub open spec fn opt_view(v: Option<&str>) -> Option<Seq<char>> {
    match v {
        Some(s) => Some(s@),
        None => None,
    }
}

/// Whether an unauthenticated request may be served as the owner.
pub fn local_bypass_allowed(
    bypass_setting: Option<&str>,
    claimed: bool,
    remote_method: Option<&str>,
    client_ip: Option<IpAddress>,
) -> (r: bool)
    ensures
        r == spec_local_bypass(opt_view(bypass_setting), claimed, opt_view(remote_method), client_ip),
{
    match bypass_setting {
        Some(b) => {
            if !chars_eq_str(&chars_of(b), "true") {
                return false;
            }
        },
        None => {
            return false;
        },
    }
    if claimed {
        return false;
    }
    match remote_method {
        Some(m) => {
            let mc = chars_of(m);
            if !(chars_eq_str(&mc, "") || chars_eq_str(&mc, "none")) {
                return false;
            }
        },
        None => {},
    }
    match client_ip {
        Some(ip) => is_local_ip(ip),
        None => false,
    }
}

/// The token to try on the scoped media path: only on a media route, the
/// `token` parameter, else `access_token`, and only when it looks like a media
/// token.
pub open spec fn spec_media_candidate(
    path: Seq<char>,
    media_query_token: Option<Seq<char>>,
    query_token: Option<Seq<char>>,
) -> Option<Seq<char>> {
    if !spec_media_route(path) {
        None
    } else {
        let c = if media_query_token is Some {
            media_query_token
        } else {
            query_token
        };
        match c {
            Some(t) => if spec_looks_like_media_token(t) {
                Some(t)
            } else {
                None
            },
            None => None,
        }
    }
}

/// The media-token candidate of a request that failed standard authentication.
pub fn media_token_candidate(
    path: &str,
    media_query_token: Option<&str>,
    query_token: Option<&str>,
) -> (r: Option<String>)
    ensures
        match r {
            Some(t) => spec_media_candidate(path@, opt_view(media_query_token), opt_view(query_token))
                == Some(t@),
            None => spec_media_candidate(path@, opt_view(media_query_token), opt_view(query_token))
                is None,
        },
{
    if !is_media_route(path) {
        return None;
    }
    let c = match media_query_token {
        Some(t) => Some(t),
        None => query_token,
    };
    match c {
        Some(t) => if looks_like_media_token(t) {
            Some(string_from_str(t))
        } else {
            None
        },
        None => None,
    }
}


// ---------------------------------------------------------------------------
// Passwords, sessions and permissions
// ---------------------------------------------------------------------------

/// Whether the Argon2 PHC string `hash` accepts `password`: it parses, and
/// Argon2 (with the parameters, salt and variant it records) gives back its
/// digest for the password's UTF-8 bytes.
pub uninterp spec fn argon2_accepts(hash: Seq<char>, password: Seq<char>) -> bool;

/// The most password bytes Argon2 takes (`argon2::MAX_PWD_LEN`).
pub const MAX_PASSWORD_BYTES: u64 = 0xFFFF_FFFF;

/// `Argon2::default().hash_password` with a salt drawn from the operating
/// system's generator, as a PHC string. The salt is random, so nothing is
/// stated of the text itself; a hash that is returned verifies against the
/// password it was made from. With the default parameters and a generated
/// salt, the crate fails only on a password longer than `MAX_PWD_LEN` bytes.
#[verifier::external_body]
fn argon2_hash(password: &str) -> (r: Option<String>)
    ensures
        r is Some <==> utf8(password@).len() <= MAX_PASSWORD_BYTES,
        r matches Some(h) ==> argon2_accepts(h@, password@),
{
    let salt = argon2::password_hash::SaltString::generate(&mut argon2::password_hash::rand_core::OsRng);
    let hasher = argon2::Argon2::default();
    argon2::PasswordHasher::hash_password(&hasher, password.as_bytes(), &salt).map(|h| h.to_string()).ok()
}

/// `PasswordHash::new` then `Argon2::default().verify_password`: whether the
/// stored hash accepts the password (an unparsable hash accepts nothing).
#[verifier::external_body]
fn argon2_verify(password: &str, hash: &str) -> (r: bool)
    ensures
        r == argon2_accepts(hash@, password@),
{
    match argon2::PasswordHash::new(hash) {
        Ok(parsed) => argon2::PasswordVerifier::verify_password(&argon2::Argon2::default(), password.as_bytes(), &parsed).is_ok(),
        Err(_) => false,
    }
}

/// Hash a password with Argon2id and a fresh random salt. `None` when the
/// hasher fails, which it does only for a password of more than
/// `MAX_PASSWORD_BYTES` bytes; a returned hash verifies against the password.
pub fn hash_password(password: &str) -> (r: Option<String>)
    ensures
        r is Some <==> utf8(password@).len() <= MAX_PASSWORD_BYTES,
        r matches Some(h) ==> argon2_accepts(h@, password@),
{
    argon2_hash(password)
}

/// Verify a password against a stored hash.
pub fn verify_password(password: &str, hash: &str) -> (r: bool)
    ensures
        r == argon2_accepts(hash@, password@),
{
    argon2_verify(password, hash)
}

/// Session ids are stored hashed: the lowercase hex SHA-256 of the id's
/// UTF-8 bytes.
pub fn hash_session_id(session_id: &str) -> (out: String)
    ensures
        out@ == hex_lower(sha256(utf8(session_id@))),
{
    let digest = sha256_digest(session_id.as_bytes());
    hex_encode(digest.as_slice())
}

/// Owners pass every permission check; others need the permission granted
/// (`granted_count` rows of it were found).
pub fn require_permission(user: &AuthUser, permission: &str, granted_count: i64) -> (r: Result<(), AppError>)
    ensures
        r is Ok <==> (user.is_owner || granted_count != 0),
        r matches Err(e) ==> e matches AppError::Forbidden(m) && m@ == "Missing required permission: "@
            + permission@,
{
    if user.is_owner {
        return Ok(());
    }
    if granted_count == 0 {
        let mut v = chars_of("Missing required permission: ");
        crate::text::extend_str(&mut v, permission);
        return Err(AppError::Forbidden(string_of(&v)));
    }
    Ok(())
}

} // verus!
